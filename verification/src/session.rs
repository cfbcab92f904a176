//! One session of the correlated transfer, round by round.
//!
//! Each party's state between two rounds is a value of its own type, and
//! a round consumes the state it starts from. So the messages of a session
//! can only be produced and consumed in the order of the protocol, no state
//! serves two sessions, and a failed round leaves nothing to go on with.
//!
//! The receiver opens with its key message ([`receiver_start`]). The
//! sender answers with the two base transfers, of seeds and of offsets,
//! and the masked labels ([`sender_start`]). The receiver recovers its
//! labels and reveals its MAC keys
//! ([`ReceiverAwaitingTransfer::on_transfer`]). The sender answers with
//! the MACs ([`SenderAwaitingMacKeys::on_mac_keys`]), and the receiver
//! accepts its labels or reports the sender
//! ([`ReceiverAwaitingMacs::on_macs`]).
use crate::cot::{dec_labels_spec, enc_labels_spec, macs_accepted_spec, CotReceiver, CotSender};
use crate::curve::Point;
use crate::errors::Error;
use crate::field::{all_canonical, values, Fq};
use crate::framing::{evens_spec, interleave_spec, odds_spec};
use crate::mac::macs_spec;
use crate::mimc::MIMC_ROUNDS;
use crate::pvw::{
    ciphertext_views, is_transfer_of, key_message_spec, keys_of_message_spec, point_views,
    received_spec, Ciphertext, CiphertextView, CrsView, KeyView, CRS,
};
use rand::rngs::StdRng;
use vstd::prelude::*;

verus! {

/// Whether the message of masked labels masks the given labels under some
/// seeds, residues of the base field, that the message of the seed
/// transfer carries.
pub open spec fn masks_transferred_seeds(
    seeds_payload: Seq<CiphertextView>,
    enclabels_payload: Seq<nat>,
    labels_0: Seq<nat>,
    labels_1: Seq<nat>,
    crs: CrsView,
    pks: Seq<KeyView>,
    constants: Seq<nat>,
) -> bool {
    exists|k_prgs_0: Seq<nat>, k_prgs_1: Seq<nat>|
        {
            &&& k_prgs_0.len() == labels_0.len()
            &&& k_prgs_1.len() == labels_1.len()
            &&& all_canonical(k_prgs_0)
            &&& all_canonical(k_prgs_1)
            &&& #[trigger] is_transfer_of(seeds_payload, k_prgs_0, k_prgs_1, crs, pks)
            &&& enclabels_payload == interleave_spec(
                enc_labels_spec(labels_0, k_prgs_0, constants),
                enc_labels_spec(labels_1, k_prgs_1, constants),
            )
        }
}

/// The sender after its first round: it waits for the receiver's MAC keys.
pub struct SenderAwaitingMacKeys {
    sender: CotSender,
    rs_0: Vec<Fq>,
    rs_1: Vec<Fq>,
}

impl SenderAwaitingMacKeys {
    #[verifier::type_invariant]
    spec fn well_formed(self) -> bool {
        &&& self.rs_0@.len() == self.sender.batch_size()
        &&& self.rs_1@.len() == self.sender.batch_size()
    }

    /// The number of transfers in the batch.
    pub closed spec fn batch_size(&self) -> nat {
        self.sender.batch_size()
    }

    /// The labels of branch 0.
    pub closed spec fn labels_0(&self) -> Seq<nat> {
        self.sender.labels_0()
    }

    /// The labels of branch 1.
    pub closed spec fn labels_1(&self) -> Seq<nat> {
        self.sender.labels_1()
    }

    /// The offsets of branch 0.
    pub closed spec fn offsets_0(&self) -> Seq<nat> {
        values(self.rs_0@)
    }

    /// The offsets of branch 1.
    pub closed spec fn offsets_1(&self) -> Seq<nat> {
        values(self.rs_1@)
    }

    /// The receiver's public keys.
    pub closed spec fn public_keys(&self) -> Seq<KeyView> {
        self.sender.public_keys()
    }

    /// The sender's second and last round: takes the receiver's MAC keys
    /// and gives the message with the MACs of both branches.
    pub fn on_mac_keys(self, payload: &Vec<Fq>) -> (r: Result<Vec<Fq>, Error>)
        ensures
            r.is_ok() <==> payload@.len() == 2,
            r matches Err(e) ==> e == Error::MalformedPayload,
            r matches Ok(macs_payload) ==> values(macs_payload@) == interleave_spec(
                macs_spec(payload@[0]@, payload@[1]@, self.labels_0(), self.offsets_0()),
                macs_spec(payload@[0]@, payload@[1]@, self.labels_1(), self.offsets_1()),
            ),
    {
        proof {
            use_type_invariant(&self);
        }
        let mac_keys = match self.sender.receive_mackeys(payload) {
            Ok(keys) => keys,
            Err(e) => {
                return Err(e);
            },
        };
        match self.sender.gen_macs(&self.rs_0, &self.rs_1, &mac_keys) {
            Ok((labelmacs_0, labelmacs_1)) => self.sender.send_macs(&labelmacs_0, &labelmacs_1),
            Err(e) => Err(e),
        }
    }
}

/// The sender's first round: starts a session for `m` transfers with the
/// given labels, takes the receiver's key message and gives three
/// messages: the base transfer of the seeds, the base transfer of the
/// offsets, and the masked labels.
pub fn sender_start(
    m: usize,
    labels_0: Vec<Fq>,
    labels_1: Vec<Fq>,
    key_payload: &Vec<Point>,
    crs: &CRS,
    mimc_constants: &Vec<Fq>,
    rng: &mut StdRng,
) -> (r: Result<(SenderAwaitingMacKeys, Vec<Ciphertext>, Vec<Ciphertext>, Vec<Fq>), Error>)
    ensures
        r.is_ok() <==> m >= 1 && labels_0@.len() == m && labels_1@.len() == m
            && key_payload@.len() == 2 * m && mimc_constants@.len() >= MIMC_ROUNDS,
        r matches Err(e) ==> e == (if m == 0 {
            Error::EmptyBatch
        } else if labels_0@.len() != m || labels_1@.len() != m {
            Error::LengthMismatch
        } else if key_payload@.len() != 2 * m {
            Error::MalformedPayload
        } else {
            Error::LengthMismatch
        }),
        r matches Ok(out) ==> {
            &&& out.0.batch_size() == m
            &&& out.0.labels_0() == values(labels_0@)
            &&& out.0.labels_1() == values(labels_1@)
            &&& out.0.public_keys() == keys_of_message_spec(point_views(key_payload@))
            &&& out.0.offsets_0().len() == m
            &&& out.0.offsets_1().len() == m
            &&& all_canonical(out.0.offsets_0())
            &&& all_canonical(out.0.offsets_1())
            &&& masks_transferred_seeds(
                ciphertext_views(out.1@),
                values(out.3@),
                out.0.labels_0(),
                out.0.labels_1(),
                crs@,
                out.0.public_keys(),
                values(mimc_constants@),
            )
            &&& is_transfer_of(
                ciphertext_views(out.2@),
                out.0.offsets_0(),
                out.0.offsets_1(),
                crs@,
                out.0.public_keys(),
            )
        },
{
    let sender = match CotSender::init(m, labels_0, labels_1, key_payload) {
        Ok(sender) => sender,
        Err(e) => {
            return Err(e);
        },
    };
    if mimc_constants.len() < MIMC_ROUNDS {
        return Err(Error::LengthMismatch);
    }
    let (k_prgs_0, k_prgs_1, rs_0, rs_1) = sender.gen_otmsg(rng);
    let seeds_payload = match sender.send_ot(&k_prgs_0, &k_prgs_1, crs, rng) {
        Ok(payload) => payload,
        Err(e) => {
            return Err(e);
        },
    };
    let offsets_payload = match sender.send_ot(&rs_0, &rs_1, crs, rng) {
        Ok(payload) => payload,
        Err(e) => {
            return Err(e);
        },
    };
    let (enclabels_0, enclabels_1) = match sender.enc_labels(&k_prgs_0, &k_prgs_1, mimc_constants) {
        Ok(enclabels) => enclabels,
        Err(e) => {
            return Err(e);
        },
    };
    let enclabels_payload = match sender.send_enclabels(&enclabels_0, &enclabels_1) {
        Ok(payload) => payload,
        Err(e) => {
            return Err(e);
        },
    };
    proof {
        assert(values(k_prgs_0@).len() == values(labels_0@).len());
        assert(values(k_prgs_1@).len() == values(labels_1@).len());
        assert(is_transfer_of(
            ciphertext_views(seeds_payload@),
            values(k_prgs_0@),
            values(k_prgs_1@),
            crs@,
            sender.public_keys(),
        ));
    }
    Ok((SenderAwaitingMacKeys { sender, rs_0, rs_1 }, seeds_payload, offsets_payload, enclabels_payload))
}

/// The receiver after its opening: it waits for the sender's two base
/// transfers and the masked labels.
pub struct ReceiverAwaitingTransfer {
    receiver: CotReceiver,
}

impl ReceiverAwaitingTransfer {
    /// The number of transfers in the batch.
    pub closed spec fn batch_size(&self) -> nat {
        self.receiver.batch_size()
    }

    /// The choice bits.
    pub closed spec fn choice_bits(&self) -> Seq<bool> {
        self.receiver.choice_bits()
    }

    /// The MAC keys `(k0, k1)`.
    pub closed spec fn mac_keys(&self) -> (nat, nat) {
        self.receiver.mac_keys()
    }

    /// The secret scalars of the base transfer.
    pub closed spec fn secret_keys(&self) -> Seq<nat> {
        self.receiver.secret_keys()
    }

    /// The receiver's second round: takes the base transfer of the seeds,
    /// the base transfer of the offsets and the masked labels, recovers
    /// the labels of its branches, and gives the message that reveals its
    /// MAC keys.
    pub fn on_transfer(
        self,
        seeds_payload: &Vec<Ciphertext>,
        offsets_payload: &Vec<Ciphertext>,
        enclabels_payload: &Vec<Fq>,
        mimc_constants: &Vec<Fq>,
    ) -> (r: Result<(ReceiverAwaitingMacs, Vec<Fq>), Error>)
        ensures
            r.is_ok() <==> seeds_payload@.len() == 2 * self.batch_size()
                && offsets_payload@.len() == 2 * self.batch_size() && enclabels_payload@.len()
                == 2 * self.batch_size() && mimc_constants@.len() >= MIMC_ROUNDS,
            r matches Err(e) ==> e == (if seeds_payload@.len() != 2 * self.batch_size()
                || offsets_payload@.len() != 2 * self.batch_size() || enclabels_payload@.len()
                != 2 * self.batch_size() {
                Error::MalformedPayload
            } else {
                Error::LengthMismatch
            }),
            r matches Ok(out) ==> {
                &&& out.0.batch_size() == self.batch_size()
                &&& out.0.choice_bits() == self.choice_bits()
                &&& out.0.mac_keys() == self.mac_keys()
                &&& out.0.offsets() == received_spec(
                    self.secret_keys(),
                    self.choice_bits(),
                    ciphertext_views(offsets_payload@),
                )
                &&& out.0.labels() == dec_labels_spec(
                    self.choice_bits(),
                    evens_spec(values(enclabels_payload@)),
                    odds_spec(values(enclabels_payload@)),
                    received_spec(
                        self.secret_keys(),
                        self.choice_bits(),
                        ciphertext_views(seeds_payload@),
                    ),
                    values(mimc_constants@),
                )
                &&& values(out.1@) == seq![self.mac_keys().0, self.mac_keys().1]
            },
    {
        let k_prgs_b = match self.receiver.receive_ot(seeds_payload) {
            Ok(k_prgs_b) => k_prgs_b,
            Err(e) => {
                return Err(e);
            },
        };
        let rs_b = match self.receiver.receive_ot(offsets_payload) {
            Ok(rs_b) => rs_b,
            Err(e) => {
                return Err(e);
            },
        };
        let (enclabels_0, enclabels_1) = match self.receiver.receive_enclabels(enclabels_payload) {
            Ok(enclabels) => enclabels,
            Err(e) => {
                return Err(e);
            },
        };
        let declabels_b = match self.receiver.dec_labels(
            &enclabels_0,
            &enclabels_1,
            &k_prgs_b,
            mimc_constants,
        ) {
            Ok(declabels_b) => declabels_b,
            Err(e) => {
                return Err(e);
            },
        };
        let mac_keys_payload = self.receiver.send_mac_keys();
        Ok((ReceiverAwaitingMacs { receiver: self.receiver, declabels_b, rs_b }, mac_keys_payload))
    }
}

/// The receiver's opening: starts a session for `m` transfers with the
/// given choice bits and gives the key message for the sender.
pub fn receiver_start(m: usize, bs: Vec<bool>, crs: &CRS, rng: &mut StdRng) -> (r: Result<
    (ReceiverAwaitingTransfer, Vec<Point>),
    Error,
>)
    ensures
        m == 0 ==> (r matches Err(e) && e == Error::EmptyBatch),
        m >= 1 && bs@.len() != m ==> (r matches Err(e) && e == Error::LengthMismatch),
        m >= 1 && bs@.len() == m ==> (r matches Err(e) ==> e == Error::Randomness),
        r matches Ok(out) ==> {
            &&& m >= 1
            &&& out.0.batch_size() == m
            &&& out.0.choice_bits() == bs@
            &&& out.0.secret_keys().len() == m
            &&& forall|i: int| 0 <= i < m ==> #[trigger] out.0.secret_keys()[i] != 0
            &&& point_views(out.1@) == key_message_spec(crs@, bs@, out.0.secret_keys())
        },
{
    match CotReceiver::init(m, bs, crs, rng) {
        Ok((receiver, key_payload)) => Ok((ReceiverAwaitingTransfer { receiver }, key_payload)),
        Err(e) => Err(e),
    }
}

/// The receiver after its second round: it holds the labels it recovered
/// and waits for the sender's MACs.
pub struct ReceiverAwaitingMacs {
    receiver: CotReceiver,
    declabels_b: Vec<Fq>,
    rs_b: Vec<Fq>,
}

impl ReceiverAwaitingMacs {
    #[verifier::type_invariant]
    spec fn well_formed(self) -> bool {
        &&& self.declabels_b@.len() == self.receiver.batch_size()
        &&& self.rs_b@.len() == self.receiver.batch_size()
    }

    /// The number of transfers in the batch.
    pub closed spec fn batch_size(&self) -> nat {
        self.receiver.batch_size()
    }

    /// The choice bits.
    pub closed spec fn choice_bits(&self) -> Seq<bool> {
        self.receiver.choice_bits()
    }

    /// The MAC keys `(k0, k1)`.
    pub closed spec fn mac_keys(&self) -> (nat, nat) {
        self.receiver.mac_keys()
    }

    /// The labels recovered, not yet verified.
    pub closed spec fn labels(&self) -> Seq<nat> {
        values(self.declabels_b@)
    }

    /// The offsets that the base transfer delivered.
    pub closed spec fn offsets(&self) -> Seq<nat> {
        values(self.rs_b@)
    }

    /// The receiver's last round: takes the sender's MACs and gives the
    /// labels, all of them, if the MACs of the receiver's branches
    /// authenticate every one. If one does not, the sender cheated, and no
    /// label is given.
    pub fn on_macs(self, payload: &Vec<Fq>) -> (r: Result<Vec<Fq>, Error>)
        ensures
            r.is_ok() <==> payload@.len() == 2 * self.batch_size() && macs_accepted_spec(
                self.choice_bits(),
                evens_spec(values(payload@)),
                odds_spec(values(payload@)),
                self.labels(),
                self.offsets(),
                self.mac_keys(),
            ),
            r matches Ok(labels) ==> values(labels@) == self.labels(),
            r matches Err(e) ==> e == (if payload@.len() != 2 * self.batch_size() {
                Error::MalformedPayload
            } else {
                Error::CheatingDetected
            }),
    {
        proof {
            use_type_invariant(&self);
        }
        self.receiver.accept_labels(self.declabels_b, &self.rs_b, payload)
    }
}

} // verus!
