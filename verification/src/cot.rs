//! The correlated oblivious transfer of wire labels, with its MAC check.
//!
//! A session runs in this order. The receiver generates its keys
//! ([`CotReceiver::init`]) and the sender takes them ([`CotSender::init`]).
//! The sender draws seeds and offsets ([`CotSender::gen_otmsg`]) and
//! transfers both through the base oblivious transfer
//! ([`CotSender::send_ot`], [`CotReceiver::receive_ot`]). The sender masks
//! its labels with pads derived from the seeds ([`CotSender::enc_labels`]);
//! the receiver removes the pad of its own branch
//! ([`CotReceiver::dec_labels`]). The receiver reveals its MAC keys, the
//! sender answers with the MACs of both branches
//! ([`CotSender::gen_macs`]), and the receiver accepts the labels only if
//! the MACs of its own branch authenticate them
//! ([`CotReceiver::accept_labels`]).
//!
//! Every message is a plain vector; carrying it to the peer is left to the
//! caller.
use crate::curve::Point;
use crate::errors::{check_batch_size, Error};
use crate::field::{all_canonical, fq_add, fq_sub, sample_elements, values, Fq};
use crate::framing::{deinterleave, evens_spec, interleave, interleave_spec, odds_spec};
use crate::mac::{mac_spec, macs_spec, MacKeys};
use crate::mimc::{mimc5_hash, mimc5_spec, MIMC_ROUNDS};
use crate::pvw::{
    ciphertext_views, is_transfer_of, key_message_spec, keys_of_message_spec, point_views,
    received_spec, Ciphertext, KeyView, Receiver, Sender, CRS,
};
use rand::rngs::StdRng;
use vstd::prelude::*;

verus! {

/// The pad of the transfer with the given index under the given seed.
pub open spec fn pad_spec(seed: nat, index: nat, constants: Seq<nat>) -> nat {
    mimc5_spec(seed, index, constants)
}

/// A label with the pad added.
pub open spec fn mask_spec(label: nat, seed: nat, index: nat, constants: Seq<nat>) -> nat {
    fq_add(label, pad_spec(seed, index, constants))
}

/// A masked label with the pad taken off.
pub open spec fn unmask_spec(masked: nat, seed: nat, index: nat, constants: Seq<nat>) -> nat {
    fq_sub(masked, pad_spec(seed, index, constants))
}

/// The masked labels of one branch.
pub open spec fn enc_labels_spec(labels: Seq<nat>, seeds: Seq<nat>, constants: Seq<nat>) -> Seq<
    nat,
> {
    Seq::new(labels.len(), |i: int| mask_spec(labels[i], seeds[i], i as nat, constants))
}

/// For each transfer the element of the branch of its choice bit.
pub open spec fn select_spec(bs: Seq<bool>, xs_0: Seq<nat>, xs_1: Seq<nat>) -> Seq<nat> {
    Seq::new(
        bs.len(),
        |i: int|
            if bs[i] {
                xs_1[i]
            } else {
                xs_0[i]
            },
    )
}

/// The labels that the receiver recovers: the masked label of its branch
/// with the pad of its seed taken off.
pub open spec fn dec_labels_spec(
    bs: Seq<bool>,
    enclabels_0: Seq<nat>,
    enclabels_1: Seq<nat>,
    seeds_b: Seq<nat>,
    constants: Seq<nat>,
) -> Seq<nat> {
    Seq::new(
        bs.len(),
        |i: int|
            unmask_spec(
                select_spec(bs, enclabels_0, enclabels_1)[i],
                seeds_b[i],
                i as nat,
                constants,
            ),
    )
}

/// Whether, for every transfer, the MAC of the receiver's branch is the
/// MAC of the recovered label under the recovered offset.
pub open spec fn macs_accepted_spec(
    bs: Seq<bool>,
    labelmacs_0: Seq<nat>,
    labelmacs_1: Seq<nat>,
    declabels_b: Seq<nat>,
    rs_b: Seq<nat>,
    keys: (nat, nat),
) -> bool {
    select_spec(bs, labelmacs_0, labelmacs_1) == macs_spec(keys.0, keys.1, declabels_b, rs_b)
}

/// The pad of the transfer with the given index under the given seed.
pub fn pad(seed: &Fq, index: usize, constants: &[Fq]) -> (r: Fq)
    requires
        constants@.len() >= MIMC_ROUNDS,
    ensures
        r@ == pad_spec(seed@, index as nat, values(constants@)),
{
    let counter = Fq::from_u128(index as u128);
    mimc5_hash(seed, &counter, constants)
}

/// Masks each label with the pad of its index under its seed.
fn mask_labels(labels: &Vec<Fq>, seeds: &Vec<Fq>, constants: &Vec<Fq>) -> (r: Vec<Fq>)
    requires
        labels@.len() == seeds@.len(),
        constants@.len() >= MIMC_ROUNDS,
    ensures
        r@.len() == labels@.len(),
        values(r@) == enc_labels_spec(values(labels@), values(seeds@), values(constants@)),
{
    let mut masked: Vec<Fq> = Vec::new();
    let mut i: usize = 0;
    while i < labels.len()
        invariant
            i <= labels@.len(),
            labels@.len() == seeds@.len(),
            constants@.len() >= MIMC_ROUNDS,
            masked@.len() == i,
            forall|j: int|
                0 <= j < i ==> (#[trigger] masked@[j])@ == mask_spec(
                    labels@[j]@,
                    seeds@[j]@,
                    j as nat,
                    values(constants@),
                ),
        decreases labels@.len() - i,
    {
        let key = pad(&seeds[i], i, constants.as_slice());
        masked.push(labels[i].add(&key));
        i = i + 1;
    }
    proof {
        assert(values(masked@) =~= enc_labels_spec(
            values(labels@),
            values(seeds@),
            values(constants@),
        ));
    }
    masked
}

/// The MACs of a vector of values under a vector of offsets.
fn authenticate(keys: &MacKeys, xs: &Vec<Fq>, rs: &Vec<Fq>) -> (r: Vec<Fq>)
    requires
        xs@.len() == rs@.len(),
    ensures
        r@.len() == xs@.len(),
        values(r@) == macs_spec(keys@.0, keys@.1, values(xs@), values(rs@)),
{
    let mut tags: Vec<Fq> = Vec::new();
    let mut i: usize = 0;
    while i < xs.len()
        invariant
            i <= xs@.len(),
            xs@.len() == rs@.len(),
            tags@.len() == i,
            forall|j: int|
                0 <= j < i ==> (#[trigger] tags@[j])@ == mac_spec(
                    keys@.0,
                    keys@.1,
                    xs@[j]@,
                    rs@[j]@,
                ),
        decreases xs@.len() - i,
    {
        tags.push(keys.mac(&xs[i], &rs[i]));
        i = i + 1;
    }
    proof {
        assert(values(tags@) =~= macs_spec(keys@.0, keys@.1, values(xs@), values(rs@)));
    }
    tags
}

/// The sender of a correlated transfer: the garbler, who holds both labels
/// of every wire.
pub struct CotSender {
    m: usize,
    labels_0: Vec<Fq>,
    labels_1: Vec<Fq>,
    pvw_sender: Sender,
}

impl CotSender {
    #[verifier::type_invariant]
    spec fn well_formed(self) -> bool {
        &&& self.m >= 1
        &&& 2 * self.m <= usize::MAX
        &&& self.labels_0@.len() == self.m
        &&& self.labels_1@.len() == self.m
        &&& self.pvw_sender.batch_size() == self.m
    }

    /// The number of transfers in the batch.
    pub closed spec fn batch_size(&self) -> nat {
        self.m as nat
    }

    /// The labels of branch 0, one for each transfer.
    pub closed spec fn labels_0(&self) -> Seq<nat> {
        values(self.labels_0@)
    }

    /// The labels of branch 1, one for each transfer.
    pub closed spec fn labels_1(&self) -> Seq<nat> {
        values(self.labels_1@)
    }

    /// The receiver's public keys, one for each transfer.
    pub closed spec fn public_keys(&self) -> Seq<KeyView> {
        self.pvw_sender.public_keys()
    }

    /// Starts a session for `m` transfers with the given labels, taking the
    /// receiver's key message. An empty batch is refused before anything
    /// else is looked at.
    pub fn init(m: usize, labels_0: Vec<Fq>, labels_1: Vec<Fq>, key_payload: &Vec<Point>) -> (r:
        Result<CotSender, Error>)
        ensures
            r.is_ok() <==> m >= 1 && labels_0@.len() == m && labels_1@.len() == m
                && key_payload@.len() == 2 * m,
            r matches Err(e) ==> e == (if m == 0 {
                Error::EmptyBatch
            } else if labels_0@.len() != m || labels_1@.len() != m {
                Error::LengthMismatch
            } else {
                Error::MalformedPayload
            }),
            r matches Ok(sender) ==> {
                &&& sender.batch_size() == m
                &&& sender.labels_0() == values(labels_0@)
                &&& sender.labels_1() == values(labels_1@)
                &&& sender.public_keys() == keys_of_message_spec(point_views(key_payload@))
            },
    {
        match check_batch_size(m) {
            Ok(()) => {},
            Err(e) => {
                return Err(e);
            },
        }
        if labels_0.len() != m || labels_1.len() != m {
            return Err(Error::LengthMismatch);
        }
        match Sender::init(m, key_payload) {
            Ok(pvw_sender) => {
                assert(key_payload@.len() == key_payload.len());
                Ok(CotSender { m, labels_0, labels_1, pvw_sender })
            },
            Err(e) => Err(e),
        }
    }

    /// Draws the seeds of both branches and the offsets of both branches:
    /// four vectors, one element for each transfer. Each element is a
    /// residue of the base field; which one is left to chance.
    pub fn gen_otmsg(&self, rng: &mut StdRng) -> (r: (Vec<Fq>, Vec<Fq>, Vec<Fq>, Vec<Fq>))
        ensures
            r.0@.len() == self.batch_size(),
            r.1@.len() == self.batch_size(),
            r.2@.len() == self.batch_size(),
            r.3@.len() == self.batch_size(),
            all_canonical(values(r.0@)),
            all_canonical(values(r.1@)),
            all_canonical(values(r.2@)),
            all_canonical(values(r.3@)),
    {
        let k_prgs_0 = sample_elements(rng, self.m);
        let k_prgs_1 = sample_elements(rng, self.m);
        let rs_0 = sample_elements(rng, self.m);
        let rs_1 = sample_elements(rng, self.m);
        (k_prgs_0, k_prgs_1, rs_0, rs_1)
    }

    /// Masks the labels of each branch with the pads of that branch's
    /// seeds. The index of a transfer is the counter of its pad, in both
    /// branches.
    pub fn enc_labels(&self, k_prgs_0: &Vec<Fq>, k_prgs_1: &Vec<Fq>, mimc_constants: &Vec<Fq>) -> (r:
        Result<(Vec<Fq>, Vec<Fq>), Error>)
        ensures
            r.is_ok() <==> k_prgs_0@.len() == self.batch_size() && k_prgs_1@.len()
                == self.batch_size() && mimc_constants@.len() >= MIMC_ROUNDS,
            r matches Err(e) ==> e == Error::LengthMismatch,
            r matches Ok(enclabels) ==> {
                &&& enclabels.0@.len() == self.batch_size()
                &&& enclabels.1@.len() == self.batch_size()
                &&& values(enclabels.0@) == enc_labels_spec(
                    self.labels_0(),
                    values(k_prgs_0@),
                    values(mimc_constants@),
                )
                &&& values(enclabels.1@) == enc_labels_spec(
                    self.labels_1(),
                    values(k_prgs_1@),
                    values(mimc_constants@),
                )
            },
    {
        proof {
            use_type_invariant(self);
        }
        if k_prgs_0.len() != self.m || k_prgs_1.len() != self.m || mimc_constants.len()
            < MIMC_ROUNDS {
            return Err(Error::LengthMismatch);
        }
        let enclabels_0 = mask_labels(&self.labels_0, k_prgs_0, mimc_constants);
        let enclabels_1 = mask_labels(&self.labels_1, k_prgs_1, mimc_constants);
        Ok((enclabels_0, enclabels_1))
    }

    /// The message of one base transfer of the pairs `(msgs_0[i],
    /// msgs_1[i])`: for each transfer the ciphertext of branch 0, then the
    /// ciphertext of branch 1.
    pub fn send_ot(&self, msgs_0: &Vec<Fq>, msgs_1: &Vec<Fq>, crs: &CRS, rng: &mut StdRng) -> (r:
        Result<Vec<Ciphertext>, Error>)
        ensures
            r.is_ok() <==> msgs_0@.len() == self.batch_size() && msgs_1@.len()
                == self.batch_size(),
            r matches Err(e) ==> e == Error::LengthMismatch,
            r matches Ok(payload) ==> is_transfer_of(
                ciphertext_views(payload@),
                values(msgs_0@),
                values(msgs_1@),
                crs@,
                self.public_keys(),
            ),
    {
        proof {
            use_type_invariant(self);
        }
        self.pvw_sender.send(msgs_0, msgs_1, crs, rng)
    }

    /// The message of one base transfer of the labels themselves.
    pub fn send(&self, crs: &CRS, rng: &mut StdRng) -> (r: Result<Vec<Ciphertext>, Error>)
        ensures
            r matches Ok(payload) && is_transfer_of(
                ciphertext_views(payload@),
                self.labels_0(),
                self.labels_1(),
                crs@,
                self.public_keys(),
            ),
    {
        proof {
            use_type_invariant(self);
        }
        self.pvw_sender.send(&self.labels_0, &self.labels_1, crs, rng)
    }

    /// The message that carries the masked labels of both branches.
    pub fn send_enclabels(&self, enclabels_0: &Vec<Fq>, enclabels_1: &Vec<Fq>) -> (r: Result<
        Vec<Fq>,
        Error,
    >)
        ensures
            r.is_ok() <==> enclabels_0@.len() == self.batch_size() && enclabels_1@.len()
                == self.batch_size(),
            r matches Err(e) ==> e == Error::LengthMismatch,
            r matches Ok(payload) ==> values(payload@) == interleave_spec(
                values(enclabels_0@),
                values(enclabels_1@),
            ),
    {
        proof {
            use_type_invariant(self);
        }
        if enclabels_0.len() != self.m || enclabels_1.len() != self.m {
            return Err(Error::LengthMismatch);
        }
        interleave(enclabels_0, enclabels_1)
    }

    /// Takes the receiver's message with its two MAC keys.
    pub fn receive_mackeys(&self, payload: &Vec<Fq>) -> (r: Result<MacKeys, Error>)
        ensures
            r.is_ok() <==> payload@.len() == 2,
            r matches Err(e) ==> e == Error::MalformedPayload,
            r matches Ok(keys) ==> keys@ == (payload@[0]@, payload@[1]@),
    {
        if payload.len() != 2 {
            return Err(Error::MalformedPayload);
        }
        Ok(MacKeys::new(payload[0], payload[1]))
    }

    /// The MACs of the given labels of each branch under the offsets of
    /// that branch.
    pub fn cmpt_macs(
        &self,
        labels_0: &Vec<Fq>,
        labels_1: &Vec<Fq>,
        rs_0: &Vec<Fq>,
        rs_1: &Vec<Fq>,
        mac_keys: &MacKeys,
    ) -> (r: Result<(Vec<Fq>, Vec<Fq>), Error>)
        ensures
            r.is_ok() <==> labels_0@.len() == self.batch_size() && labels_1@.len()
                == self.batch_size() && rs_0@.len() == self.batch_size() && rs_1@.len()
                == self.batch_size(),
            r matches Err(e) ==> e == Error::LengthMismatch,
            r matches Ok(labelmacs) ==> {
                &&& labelmacs.0@.len() == self.batch_size()
                &&& labelmacs.1@.len() == self.batch_size()
                &&& values(labelmacs.0@) == macs_spec(
                    mac_keys@.0,
                    mac_keys@.1,
                    values(labels_0@),
                    values(rs_0@),
                )
                &&& values(labelmacs.1@) == macs_spec(
                    mac_keys@.0,
                    mac_keys@.1,
                    values(labels_1@),
                    values(rs_1@),
                )
            },
    {
        if labels_0.len() != self.m || labels_1.len() != self.m || rs_0.len() != self.m
            || rs_1.len() != self.m {
            return Err(Error::LengthMismatch);
        }
        let labelmacs_0 = authenticate(mac_keys, labels_0, rs_0);
        let labelmacs_1 = authenticate(mac_keys, labels_1, rs_1);
        Ok((labelmacs_0, labelmacs_1))
    }

    /// The MACs of the sender's own labels of each branch under the
    /// offsets of that branch.
    pub fn gen_macs(&self, rs_0: &Vec<Fq>, rs_1: &Vec<Fq>, mac_keys: &MacKeys) -> (r: Result<
        (Vec<Fq>, Vec<Fq>),
        Error,
    >)
        ensures
            r.is_ok() <==> rs_0@.len() == self.batch_size() && rs_1@.len() == self.batch_size(),
            r matches Err(e) ==> e == Error::LengthMismatch,
            r matches Ok(labelmacs) ==> {
                &&& labelmacs.0@.len() == self.batch_size()
                &&& labelmacs.1@.len() == self.batch_size()
                &&& values(labelmacs.0@) == macs_spec(
                    mac_keys@.0,
                    mac_keys@.1,
                    self.labels_0(),
                    values(rs_0@),
                )
                &&& values(labelmacs.1@) == macs_spec(
                    mac_keys@.0,
                    mac_keys@.1,
                    self.labels_1(),
                    values(rs_1@),
                )
            },
    {
        proof {
            use_type_invariant(self);
        }
        self.cmpt_macs(&self.labels_0, &self.labels_1, rs_0, rs_1, mac_keys)
    }

    /// The message that carries the MACs of both branches.
    pub fn send_macs(&self, labelmacs_0: &Vec<Fq>, labelmacs_1: &Vec<Fq>) -> (r: Result<
        Vec<Fq>,
        Error,
    >)
        ensures
            r.is_ok() <==> labelmacs_0@.len() == self.batch_size() && labelmacs_1@.len()
                == self.batch_size(),
            r matches Err(e) ==> e == Error::LengthMismatch,
            r matches Ok(payload) ==> values(payload@) == interleave_spec(
                values(labelmacs_0@),
                values(labelmacs_1@),
            ),
    {
        proof {
            use_type_invariant(self);
        }
        if labelmacs_0.len() != self.m || labelmacs_1.len() != self.m {
            return Err(Error::LengthMismatch);
        }
        interleave(labelmacs_0, labelmacs_1)
    }
}

/// The receiver of a correlated transfer: the evaluator, who learns for
/// every wire the label of its choice bit.
pub struct CotReceiver {
    m: usize,
    bs: Vec<bool>,
    mac_keys: MacKeys,
    pvw_receiver: Receiver,
}

impl CotReceiver {
    #[verifier::type_invariant]
    spec fn well_formed(self) -> bool {
        &&& self.m >= 1
        &&& 2 * self.m <= usize::MAX
        &&& self.bs@.len() == self.m
        &&& self.pvw_receiver.batch_size() == self.m
    }

    /// The number of transfers in the batch.
    pub closed spec fn batch_size(&self) -> nat {
        self.m as nat
    }

    /// The choice bits, one for each transfer.
    pub closed spec fn choice_bits(&self) -> Seq<bool> {
        self.bs@
    }

    /// The MAC keys `(k0, k1)`.
    pub closed spec fn mac_keys(&self) -> (nat, nat) {
        self.mac_keys@
    }

    /// The secret scalars of the base transfer, one for each transfer.
    pub closed spec fn secret_keys(&self) -> Seq<nat> {
        self.pvw_receiver.secret_keys()
    }

    /// Starts a session for `m` transfers with the given choice bits: draws
    /// the MAC keys and the keys of the base transfer. Beside the
    /// receiver's state this gives the key message for the sender. An
    /// empty batch is refused before anything is drawn.
    pub fn init(m: usize, bs: Vec<bool>, crs: &CRS, rng: &mut StdRng) -> (r: Result<
        (CotReceiver, Vec<Point>),
        Error,
    >)
        ensures
            m == 0 ==> (r matches Err(e) && e == Error::EmptyBatch),
            m >= 1 && bs@.len() != m ==> (r matches Err(e) && e == Error::LengthMismatch),
            m >= 1 && bs@.len() == m ==> (r matches Err(e) ==> e == Error::Randomness),
            r matches Ok(out) ==> {
                &&& m >= 1
                &&& out.0.batch_size() == m
                &&& out.0.choice_bits() == bs@
                &&& out.0.secret_keys().len() == m
                &&& forall|i: int| 0 <= i < m ==> #[trigger] out.0.secret_keys()[i] != 0
                &&& point_views(out.1@) == key_message_spec(crs@, bs@, out.0.secret_keys())
            },
    {
        match check_batch_size(m) {
            Ok(()) => {},
            Err(e) => {
                return Err(e);
            },
        }
        if bs.len() != m {
            return Err(Error::LengthMismatch);
        }
        let mac_keys = MacKeys::sample(rng);
        match Receiver::init(crs, m, &bs, rng) {
            Ok((pvw_receiver, key_payload)) => {
                assert(key_payload@.len() == key_payload.len());
                assert(point_views(key_payload@).len() == 2 * m);
                Ok((CotReceiver { m, bs, mac_keys, pvw_receiver }, key_payload))
            },
            Err(e) => Err(e),
        }
    }

    /// Takes the message of one base transfer and opens, for each
    /// transfer, the ciphertext of the branch of its choice bit.
    pub fn receive_ot(&self, payload: &Vec<Ciphertext>) -> (r: Result<Vec<Fq>, Error>)
        ensures
            r.is_ok() <==> payload@.len() == 2 * self.batch_size(),
            r matches Err(e) ==> e == Error::MalformedPayload,
            r matches Ok(xs_b) ==> xs_b@.len() == self.batch_size() && values(xs_b@)
                == received_spec(
                self.secret_keys(),
                self.choice_bits(),
                ciphertext_views(payload@),
            ),
    {
        proof {
            use_type_invariant(self);
        }
        self.pvw_receiver.receive(payload, &self.bs)
    }

    /// Takes the message of the base transfer of the labels themselves.
    pub fn receive(&self, payload: &Vec<Ciphertext>) -> (r: Result<Vec<Fq>, Error>)
        ensures
            r.is_ok() <==> payload@.len() == 2 * self.batch_size(),
            r matches Err(e) ==> e == Error::MalformedPayload,
            r matches Ok(labels_b) ==> labels_b@.len() == self.batch_size() && values(labels_b@)
                == received_spec(
                self.secret_keys(),
                self.choice_bits(),
                ciphertext_views(payload@),
            ),
    {
        self.receive_ot(payload)
    }

    /// Takes the message with the masked labels of both branches.
    pub fn receive_enclabels(&self, payload: &Vec<Fq>) -> (r: Result<(Vec<Fq>, Vec<Fq>), Error>)
        ensures
            r.is_ok() <==> payload@.len() == 2 * self.batch_size(),
            r matches Err(e) ==> e == Error::MalformedPayload,
            r matches Ok(enclabels) ==> {
                &&& enclabels.0@.len() == self.batch_size()
                &&& enclabels.1@.len() == self.batch_size()
                &&& values(enclabels.0@) == evens_spec(values(payload@))
                &&& values(enclabels.1@) == odds_spec(values(payload@))
            },
    {
        deinterleave(payload, self.m)
    }

    /// Takes from each masked label of the receiver's branch the pad of
    /// the seed that the base transfer delivered.
    pub fn dec_labels(
        &self,
        enclabels_0: &Vec<Fq>,
        enclabels_1: &Vec<Fq>,
        k_prgs_b: &Vec<Fq>,
        mimc_constants: &Vec<Fq>,
    ) -> (r: Result<Vec<Fq>, Error>)
        ensures
            r.is_ok() <==> enclabels_0@.len() == self.batch_size() && enclabels_1@.len()
                == self.batch_size() && k_prgs_b@.len() == self.batch_size()
                && mimc_constants@.len() >= MIMC_ROUNDS,
            r matches Err(e) ==> e == Error::LengthMismatch,
            r matches Ok(declabels_b) ==> declabels_b@.len() == self.batch_size() && values(
                declabels_b@,
            ) == dec_labels_spec(
                self.choice_bits(),
                values(enclabels_0@),
                values(enclabels_1@),
                values(k_prgs_b@),
                values(mimc_constants@),
            ),
    {
        proof {
            use_type_invariant(self);
        }
        if enclabels_0.len() != self.m || enclabels_1.len() != self.m || k_prgs_b.len()
            != self.m || mimc_constants.len() < MIMC_ROUNDS {
            return Err(Error::LengthMismatch);
        }
        let ghost want = dec_labels_spec(
            self.choice_bits(),
            values(enclabels_0@),
            values(enclabels_1@),
            values(k_prgs_b@),
            values(mimc_constants@),
        );
        let mut declabels_b: Vec<Fq> = Vec::new();
        let mut i: usize = 0;
        while i < self.m
            invariant
                i <= self.m,
                self.bs@.len() == self.m,
                enclabels_0@.len() == self.m,
                enclabels_1@.len() == self.m,
                k_prgs_b@.len() == self.m,
                mimc_constants@.len() >= MIMC_ROUNDS,
                want == dec_labels_spec(
                    self.choice_bits(),
                    values(enclabels_0@),
                    values(enclabels_1@),
                    values(k_prgs_b@),
                    values(mimc_constants@),
                ),
                declabels_b@.len() == i,
                forall|j: int| 0 <= j < i ==> (#[trigger] declabels_b@[j])@ == want[j],
            decreases self.m - i,
        {
            let key = pad(&k_prgs_b[i], i, mimc_constants.as_slice());
            let masked = if self.bs[i] {
                &enclabels_1[i]
            } else {
                &enclabels_0[i]
            };
            declabels_b.push(masked.sub(&key));
            i = i + 1;
        }
        proof {
            assert(values(declabels_b@) =~= want);
        }
        Ok(declabels_b)
    }

    /// Draws a fresh pair of MAC keys in place of the one held.
    pub fn gen_mac_keys(&mut self, rng: &mut StdRng) -> (r: MacKeys)
        ensures
            final(self).mac_keys() == r@,
            final(self).batch_size() == old(self).batch_size(),
            final(self).choice_bits() == old(self).choice_bits(),
            final(self).secret_keys() == old(self).secret_keys(),
    {
        proof {
            use_type_invariant(&*self);
        }
        let keys = MacKeys::sample(rng);
        self.mac_keys = keys;
        keys
    }

    /// The message that reveals the MAC keys: `k0`, then `k1`.
    pub fn send_mac_keys(&self) -> (r: Vec<Fq>)
        ensures
            values(r@) == seq![self.mac_keys().0, self.mac_keys().1],
    {
        let mut payload: Vec<Fq> = Vec::new();
        payload.push(self.mac_keys.k0());
        payload.push(self.mac_keys.k1());
        proof {
            assert(values(payload@) =~= seq![self.mac_keys().0, self.mac_keys().1]);
        }
        payload
    }

    /// Takes the message with the MACs of both branches.
    pub fn receive_macs(&self, payload: &Vec<Fq>) -> (r: Result<(Vec<Fq>, Vec<Fq>), Error>)
        ensures
            r.is_ok() <==> payload@.len() == 2 * self.batch_size(),
            r matches Err(e) ==> e == Error::MalformedPayload,
            r matches Ok(labelmacs) ==> {
                &&& labelmacs.0@.len() == self.batch_size()
                &&& labelmacs.1@.len() == self.batch_size()
                &&& values(labelmacs.0@) == evens_spec(values(payload@))
                &&& values(labelmacs.1@) == odds_spec(values(payload@))
            },
    {
        deinterleave(payload, self.m)
    }

    /// Whether, for every transfer, the MAC sent for the receiver's branch
    /// is the MAC of the recovered label under the recovered offset.
    /// Vectors of the wrong length are not accepted.
    pub fn check_macs(
        &self,
        labelmacs_0: &Vec<Fq>,
        labelmacs_1: &Vec<Fq>,
        declabels_b: &Vec<Fq>,
        rs_b: &Vec<Fq>,
    ) -> (ok: bool)
        ensures
            ok <==> {
                &&& labelmacs_0@.len() == self.batch_size()
                &&& labelmacs_1@.len() == self.batch_size()
                &&& declabels_b@.len() == self.batch_size()
                &&& rs_b@.len() == self.batch_size()
                &&& macs_accepted_spec(
                    self.choice_bits(),
                    values(labelmacs_0@),
                    values(labelmacs_1@),
                    values(declabels_b@),
                    values(rs_b@),
                    self.mac_keys(),
                )
            },
    {
        proof {
            use_type_invariant(self);
        }
        if labelmacs_0.len() != self.m || labelmacs_1.len() != self.m || declabels_b.len()
            != self.m || rs_b.len() != self.m {
            return false;
        }
        let ghost theirs = select_spec(
            self.choice_bits(),
            values(labelmacs_0@),
            values(labelmacs_1@),
        );
        let ghost ours = macs_spec(
            self.mac_keys().0,
            self.mac_keys().1,
            values(declabels_b@),
            values(rs_b@),
        );
        let mut i: usize = 0;
        while i < self.m
            invariant
                i <= self.m,
                self.bs@.len() == self.m,
                labelmacs_0@.len() == self.m,
                labelmacs_1@.len() == self.m,
                declabels_b@.len() == self.m,
                rs_b@.len() == self.m,
                theirs == select_spec(
                    self.choice_bits(),
                    values(labelmacs_0@),
                    values(labelmacs_1@),
                ),
                ours == macs_spec(
                    self.mac_keys().0,
                    self.mac_keys().1,
                    values(declabels_b@),
                    values(rs_b@),
                ),
                forall|j: int| 0 <= j < i ==> theirs[j] == ours[j],
            decreases self.m - i,
        {
            let tag = self.mac_keys.mac(&declabels_b[i], &rs_b[i]);
            let sent = if self.bs[i] {
                &labelmacs_1[i]
            } else {
                &labelmacs_0[i]
            };
            if !sent.equals(&tag) {
                proof {
                    assert(theirs[i as int] != ours[i as int]);
                }
                return false;
            }
            i = i + 1;
        }
        proof {
            assert(theirs =~= ours);
        }
        true
    }

    /// Closes the session: takes the message with the MACs of both
    /// branches and hands the recovered labels back if the MACs of the
    /// receiver's branch authenticate every one of them. If one does not,
    /// the sender cheated and no label is handed back.
    pub fn accept_labels(&self, declabels_b: Vec<Fq>, rs_b: &Vec<Fq>, mac_payload: &Vec<Fq>) -> (r:
        Result<Vec<Fq>, Error>)
        ensures
            r.is_ok() <==> {
                &&& mac_payload@.len() == 2 * self.batch_size()
                &&& declabels_b@.len() == self.batch_size()
                &&& rs_b@.len() == self.batch_size()
                &&& macs_accepted_spec(
                    self.choice_bits(),
                    evens_spec(values(mac_payload@)),
                    odds_spec(values(mac_payload@)),
                    values(declabels_b@),
                    values(rs_b@),
                    self.mac_keys(),
                )
            },
            r matches Ok(labels) ==> labels@ == declabels_b@,
            r matches Err(e) ==> e == (if mac_payload@.len() != 2 * self.batch_size() {
                Error::MalformedPayload
            } else if declabels_b@.len() != self.batch_size() || rs_b@.len()
                != self.batch_size() {
                Error::LengthMismatch
            } else {
                Error::CheatingDetected
            }),
    {
        let (labelmacs_0, labelmacs_1) = match self.receive_macs(mac_payload) {
            Ok(labelmacs) => labelmacs,
            Err(e) => {
                return Err(e);
            },
        };
        if declabels_b.len() != self.m || rs_b.len() != self.m {
            return Err(Error::LengthMismatch);
        }
        proof {
            assert(values(labelmacs_0@).len() == labelmacs_0@.len());
            assert(values(labelmacs_1@).len() == labelmacs_1@.len());
        }
        if self.check_macs(&labelmacs_0, &labelmacs_1, &declabels_b, rs_b) {
            Ok(declabels_b)
        } else {
            Err(Error::CheatingDetected)
        }
    }
}

} // verus!
