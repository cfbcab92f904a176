//! Theorems about the protocol, stated over the same specification
//! functions as the contracts of the executable code.
use crate::cot::{
    dec_labels_spec, enc_labels_spec, macs_accepted_spec, mask_spec, pad_spec, select_spec,
    unmask_spec,
};
use crate::curve::{g1_mul, PointView};
use crate::field::{all_canonical, fq_add, fq_modulus, fq_mul, fq_sub};
use crate::framing::{evens_spec, interleave_spec, lemma_interleave_round_trip, odds_spec};
use crate::mac::{is_unit, mac_spec, macs_spec};
use crate::pvw::{
    branch_spec, chosen_slot, ddh_enc_spec, dec_spec, is_encryption_of, is_transfer_of,
    key_message_spec, keys_of_message_spec, public_key_spec, randomize_spec, received_spec,
    CiphertextView, CrsView,
};
use vstd::arithmetic::div_mod::{
    lemma_fundamental_div_mod, lemma_mod_multiples_vanish, lemma_mul_mod_noop_general,
    lemma_small_mod,
};
use vstd::prelude::*;

verus! {

/// Adding an element and subtracting it again gives the residue back.
pub proof fn lemma_add_then_sub(x: nat, p: nat)
    requires
        x < fq_modulus(),
    ensures
        fq_sub(fq_add(x, p), p) == x,
        fq_sub(fq_add(p, x), p) == x,
{
    let q = fq_modulus() as int;
    let sum = (x + p) as int;
    lemma_fundamental_div_mod(sum, q);
    let k = sum / q;
    assert(sum % q - p == x + q * (-k)) by (nonlinear_arith)
        requires
            sum == q * k + sum % q,
            sum == x + p,
    ;
    lemma_mod_multiples_vanish(-k, x as int, q);
    lemma_small_mod(x, fq_modulus());
}

/// Addition of a fixed element is injective on residues.
pub proof fn lemma_add_cancel(a: nat, b: nat, c: nat)
    requires
        a < fq_modulus(),
        b < fq_modulus(),
        fq_add(a, c) == fq_add(b, c),
    ensures
        a == b,
{
    lemma_add_then_sub(a, c);
    lemma_add_then_sub(b, c);
}

/// Multiplication by a unit is injective on residues.
pub proof fn lemma_mul_cancel(k: nat, a: nat, b: nat)
    requires
        is_unit(k),
        a < fq_modulus(),
        b < fq_modulus(),
        fq_mul(k, a) == fq_mul(k, b),
    ensures
        a == b,
{
    let inv = choose|inv: nat| #[trigger] fq_mul(k, inv) == 1;
    lemma_unit_cancels(k, inv, a);
    lemma_unit_cancels(k, inv, b);
}

/// Multiplying by `k` and then by an inverse of `k` gives the residue
/// back.
proof fn lemma_unit_cancels(k: nat, inv: nat, y: nat)
    requires
        fq_mul(k, inv) == 1,
        y < fq_modulus(),
    ensures
        fq_mul(inv, fq_mul(k, y)) == y,
{
    let q = fq_modulus() as int;
    let ky = (k * y) as int;
    let ki = (k * inv) as int;
    lemma_mul_mod_noop_general(inv as int, ky, q);
    assert((inv * (ky % q)) % q == (inv * ky) % q);
    assert(inv * ky == ki * y) by (nonlinear_arith)
        requires
            ky == k * y,
            ki == k * inv,
    ;
    lemma_mul_mod_noop_general(ki, y as int, q);
    assert(((ki % q) * y) % q == (ki * y) % q);
    assert(ki % q == 1);
    assert((ki % q) * y == y) by (nonlinear_arith)
        requires
            ki % q == 1,
    ;
    lemma_small_mod(y, fq_modulus());
}

/// Under keys whose `k1` is a unit, two values with the same MAC under
/// the same offset are the same value.
pub proof fn lemma_mac_binds_value(k0: nat, k1: nat, x: nat, y: nat, r: nat)
    requires
        is_unit(k1),
        x < fq_modulus(),
        y < fq_modulus(),
        mac_spec(k0, k1, x, r) == mac_spec(k0, k1, y, r),
    ensures
        x == y,
{
    let q = fq_modulus();
    lemma_add_cancel(fq_mul(k1, fq_add(x, r)), fq_mul(k1, fq_add(y, r)), fq_mul(k0, r));
    lemma_mul_cancel(k1, fq_add(x, r), fq_add(y, r));
    lemma_add_cancel(x, y, r);
}

/// Masking a label and unmasking it with the same seed and counter gives
/// the label back: the pad is a function of seed, counter and constants.
pub proof fn lemma_mask_round_trip(label: nat, seed: nat, index: nat, constants: Seq<nat>)
    requires
        label < fq_modulus(),
    ensures
        unmask_spec(mask_spec(label, seed, index, constants), seed, index, constants) == label,
{
    lemma_add_then_sub(label, pad_spec(seed, index, constants));
}

/// A ciphertext of the base transfer opens to its message under every
/// secret scalar that carries the first point of the ciphertext to a point
/// with the first coordinate of the blinding point.
pub proof fn lemma_decrypt_recovers(
    x: nat,
    sk: nat,
    g: PointView,
    h: PointView,
    g_star: PointView,
    h_star: PointView,
    s: nat,
    t: nat,
)
    requires
        x < fq_modulus(),
        g1_mul(randomize_spec(g, h, g_star, h_star, s, t).0, sk).0 == randomize_spec(
            g,
            h,
            g_star,
            h_star,
            s,
            t,
        ).1.0,
    ensures
        dec_spec(
            sk,
            ddh_enc_spec(x, g, h, g_star, h_star, s, t).0,
            ddh_enc_spec(x, g, h, g_star, h_star, s, t).1,
        ) == x,
{
    lemma_add_then_sub(x, randomize_spec(g, h, g_star, h_star, s, t).1.0);
}

/// Whether raising to the scalar `r` carries every re-randomisation of the
/// pair `(g, h)` to a point with the first coordinate of the same
/// re-randomisation of the pair `(g^r, h^r)`. In a commutative group this
/// holds of all `g`, `h` and `r`; it is what correctness of the base
/// transfer takes from the group.
pub open spec fn power_commutes(g: PointView, h: PointView, r: nat) -> bool {
    forall|s: nat, t: nat|
        g1_mul(
            (#[trigger] randomize_spec(g, h, g1_mul(g, r), g1_mul(h, r), s, t)).0,
            r,
        ).0 == randomize_spec(g, h, g1_mul(g, r), g1_mul(h, r), s, t).1.0
}

/// An honest base transfer delivers the chosen messages. Let the receiver
/// derive its keys from its choice bits and secret scalars, and let the
/// sender's message encrypt the pairs `(xs_0[i], xs_1[i])` under those
/// keys. If the group law holds of each transfer's branch and scalar, the
/// receiver opens, for every transfer, the message of its choice bit.
pub proof fn lemma_honest_transfer_delivers(
    crs: CrsView,
    bs: Seq<bool>,
    sks: Seq<nat>,
    xs_0: Seq<nat>,
    xs_1: Seq<nat>,
    payload: Seq<CiphertextView>,
)
    requires
        sks.len() == bs.len(),
        xs_0.len() == bs.len(),
        xs_1.len() == bs.len(),
        all_canonical(xs_0),
        all_canonical(xs_1),
        is_transfer_of(
            payload,
            xs_0,
            xs_1,
            crs,
            keys_of_message_spec(key_message_spec(crs, bs, sks)),
        ),
        forall|i: int|
            0 <= i < bs.len() ==> power_commutes(
                branch_spec(crs, #[trigger] bs[i]).0,
                branch_spec(crs, bs[i]).1,
                sks[i],
            ),
    ensures
        received_spec(sks, bs, payload) == select_spec(bs, xs_0, xs_1),
{
    let pks = keys_of_message_spec(key_message_spec(crs, bs, sks));
    assert forall|i: int| 0 <= i < bs.len() implies received_spec(sks, bs, payload)[i]
        == select_spec(bs, xs_0, xs_1)[i] by {
        let b = bs[i];
        let r = sks[i];
        let g = branch_spec(crs, b).0;
        let h = branch_spec(crs, b).1;
        let x = select_spec(bs, xs_0, xs_1)[i];
        let ct = payload[chosen_slot(i, b)];
        assert(pks[i] == public_key_spec(crs, b, r));
        assert(is_encryption_of(ct, x, branch_spec(crs, b), pks[i]));
        let (s, t) = choose|s: nat, t: nat|
            ct == #[trigger] ddh_enc_spec(x, g, h, pks[i].0, pks[i].1, s, t);
        assert(power_commutes(g, h, r));
        assert(g1_mul(randomize_spec(g, h, g1_mul(g, r), g1_mul(h, r), s, t).0, r).0
            == randomize_spec(g, h, g1_mul(g, r), g1_mul(h, r), s, t).1.0);
        lemma_decrypt_recovers(x, r, g, h, g1_mul(g, r), g1_mul(h, r), s, t);
    }
    assert(received_spec(sks, bs, payload) =~= select_spec(bs, xs_0, xs_1));
}

/// An honest session ends well. Whatever the batch size (at least one),
/// the choice bits, the labels, the seeds, the offsets, the MAC keys and
/// the round constants: if the base transfer delivers to the receiver the
/// seed and the offset of its branch, then the receiver recovers exactly
/// the label of its branch for every transfer, and the MACs that the
/// sender computes over its own labels and offsets are accepted.
pub proof fn lemma_honest_session_accepted(
    bs: Seq<bool>,
    labels_0: Seq<nat>,
    labels_1: Seq<nat>,
    k_prgs_0: Seq<nat>,
    k_prgs_1: Seq<nat>,
    rs_0: Seq<nat>,
    rs_1: Seq<nat>,
    keys: (nat, nat),
    constants: Seq<nat>,
)
    requires
        bs.len() >= 1,
        labels_0.len() == bs.len(),
        labels_1.len() == bs.len(),
        k_prgs_0.len() == bs.len(),
        k_prgs_1.len() == bs.len(),
        rs_0.len() == bs.len(),
        rs_1.len() == bs.len(),
        all_canonical(labels_0),
        all_canonical(labels_1),
    ensures
        dec_labels_spec(
            bs,
            enc_labels_spec(labels_0, k_prgs_0, constants),
            enc_labels_spec(labels_1, k_prgs_1, constants),
            select_spec(bs, k_prgs_0, k_prgs_1),
            constants,
        ) == select_spec(bs, labels_0, labels_1),
        macs_accepted_spec(
            bs,
            macs_spec(keys.0, keys.1, labels_0, rs_0),
            macs_spec(keys.0, keys.1, labels_1, rs_1),
            select_spec(bs, labels_0, labels_1),
            select_spec(bs, rs_0, rs_1),
            keys,
        ),
{
    let declabels_b = dec_labels_spec(
        bs,
        enc_labels_spec(labels_0, k_prgs_0, constants),
        enc_labels_spec(labels_1, k_prgs_1, constants),
        select_spec(bs, k_prgs_0, k_prgs_1),
        constants,
    );
    assert forall|i: int| 0 <= i < bs.len() implies declabels_b[i] == select_spec(
        bs,
        labels_0,
        labels_1,
    )[i] by {
        if bs[i] {
            lemma_mask_round_trip(labels_1[i], k_prgs_1[i], i as nat, constants);
        } else {
            lemma_mask_round_trip(labels_0[i], k_prgs_0[i], i as nat, constants);
        }
    }
    assert(declabels_b =~= select_spec(bs, labels_0, labels_1));
    assert(select_spec(
        bs,
        macs_spec(keys.0, keys.1, labels_0, rs_0),
        macs_spec(keys.0, keys.1, labels_1, rs_1),
    ) =~= macs_spec(
        keys.0,
        keys.1,
        select_spec(bs, labels_0, labels_1),
        select_spec(bs, rs_0, rs_1),
    ));
}

/// An honest session ends well, message by message. Let the receiver
/// derive its keys from its choice bits and secret scalars. Let the sender
/// transfer its seeds and its offsets under those keys, mask its labels
/// with the pads of its seeds, and compute the MACs over its labels and
/// offsets. If the group law holds of each transfer's branch and scalar,
/// then what the receiver recovers from the sender's messages is, for
/// every transfer, the label of its choice bit, and the MACs are accepted.
pub proof fn lemma_honest_session_completes(
    crs: CrsView,
    bs: Seq<bool>,
    sks: Seq<nat>,
    labels_0: Seq<nat>,
    labels_1: Seq<nat>,
    k_prgs_0: Seq<nat>,
    k_prgs_1: Seq<nat>,
    rs_0: Seq<nat>,
    rs_1: Seq<nat>,
    keys: (nat, nat),
    constants: Seq<nat>,
    seeds_payload: Seq<CiphertextView>,
    offsets_payload: Seq<CiphertextView>,
)
    requires
        bs.len() >= 1,
        sks.len() == bs.len(),
        labels_0.len() == bs.len(),
        labels_1.len() == bs.len(),
        k_prgs_0.len() == bs.len(),
        k_prgs_1.len() == bs.len(),
        rs_0.len() == bs.len(),
        rs_1.len() == bs.len(),
        all_canonical(labels_0),
        all_canonical(labels_1),
        all_canonical(k_prgs_0),
        all_canonical(k_prgs_1),
        all_canonical(rs_0),
        all_canonical(rs_1),
        is_transfer_of(
            seeds_payload,
            k_prgs_0,
            k_prgs_1,
            crs,
            keys_of_message_spec(key_message_spec(crs, bs, sks)),
        ),
        is_transfer_of(
            offsets_payload,
            rs_0,
            rs_1,
            crs,
            keys_of_message_spec(key_message_spec(crs, bs, sks)),
        ),
        forall|i: int|
            0 <= i < bs.len() ==> power_commutes(
                branch_spec(crs, #[trigger] bs[i]).0,
                branch_spec(crs, bs[i]).1,
                sks[i],
            ),
    ensures
        ({
            let enclabels_payload = interleave_spec(
                enc_labels_spec(labels_0, k_prgs_0, constants),
                enc_labels_spec(labels_1, k_prgs_1, constants),
            );
            let macs_payload = interleave_spec(
                macs_spec(keys.0, keys.1, labels_0, rs_0),
                macs_spec(keys.0, keys.1, labels_1, rs_1),
            );
            let declabels_b = dec_labels_spec(
                bs,
                evens_spec(enclabels_payload),
                odds_spec(enclabels_payload),
                received_spec(sks, bs, seeds_payload),
                constants,
            );
            &&& declabels_b == select_spec(bs, labels_0, labels_1)
            &&& macs_accepted_spec(
                bs,
                evens_spec(macs_payload),
                odds_spec(macs_payload),
                declabels_b,
                received_spec(sks, bs, offsets_payload),
                keys,
            )
        }),
{
    lemma_honest_transfer_delivers(crs, bs, sks, k_prgs_0, k_prgs_1, seeds_payload);
    lemma_honest_transfer_delivers(crs, bs, sks, rs_0, rs_1, offsets_payload);
    lemma_interleave_round_trip(
        enc_labels_spec(labels_0, k_prgs_0, constants),
        enc_labels_spec(labels_1, k_prgs_1, constants),
    );
    lemma_interleave_round_trip(
        macs_spec(keys.0, keys.1, labels_0, rs_0),
        macs_spec(keys.0, keys.1, labels_1, rs_1),
    );
    lemma_honest_session_accepted(
        bs,
        labels_0,
        labels_1,
        k_prgs_0,
        k_prgs_1,
        rs_0,
        rs_1,
        keys,
        constants,
    );
}

/// The receiver reads the branch of its choice bit and no other. Two
/// messages of a base transfer that agree at the places of the chosen
/// branches are opened to the same elements, and likewise for two messages
/// of masked labels and for two messages of MACs.
pub proof fn lemma_only_chosen_branch_is_read(
    bs: Seq<bool>,
    sks: Seq<nat>,
    payload: Seq<CiphertextView>,
    other_payload: Seq<CiphertextView>,
    xs_0: Seq<nat>,
    xs_1: Seq<nat>,
    ys_0: Seq<nat>,
    ys_1: Seq<nat>,
)
    requires
        forall|i: int|
            0 <= i < bs.len() ==> payload[chosen_slot(i, #[trigger] bs[i])] == other_payload[chosen_slot(
                i,
                bs[i],
            )],
        forall|i: int| 0 <= i < bs.len() && #[trigger] bs[i] ==> xs_1[i] == ys_1[i],
        forall|i: int| 0 <= i < bs.len() && !#[trigger] bs[i] ==> xs_0[i] == ys_0[i],
    ensures
        received_spec(sks, bs, payload) == received_spec(sks, bs, other_payload),
        select_spec(bs, xs_0, xs_1) == select_spec(bs, ys_0, ys_1),
        forall|seeds_b: Seq<nat>, constants: Seq<nat>|
            #[trigger] dec_labels_spec(bs, xs_0, xs_1, seeds_b, constants) == dec_labels_spec(
                bs,
                ys_0,
                ys_1,
                seeds_b,
                constants,
            ),
        forall|declabels_b: Seq<nat>, rs_b: Seq<nat>, keys: (nat, nat)|
            #[trigger] macs_accepted_spec(bs, xs_0, xs_1, declabels_b, rs_b, keys)
                == macs_accepted_spec(bs, ys_0, ys_1, declabels_b, rs_b, keys),
{
    assert(received_spec(sks, bs, payload) =~= received_spec(sks, bs, other_payload));
    assert(select_spec(bs, xs_0, xs_1) =~= select_spec(bs, ys_0, ys_1));
    assert forall|seeds_b: Seq<nat>, constants: Seq<nat>|
        #[trigger] dec_labels_spec(bs, xs_0, xs_1, seeds_b, constants) == dec_labels_spec(
            bs,
            ys_0,
            ys_1,
            seeds_b,
            constants,
        ) by {
        assert(dec_labels_spec(bs, xs_0, xs_1, seeds_b, constants) =~= dec_labels_spec(
            bs,
            ys_0,
            ys_1,
            seeds_b,
            constants,
        ));
    }
}

/// A tampered MAC is detected. Let the MAC that the sender sends for the
/// receiver's branch of one transfer be computed over a label other than
/// the one the receiver recovered, under the offset the receiver holds.
/// If the key `k1` is a unit, which `MacKeys::is_binding` tests, the
/// receiver does not accept, whatever the other MACs are.
pub proof fn lemma_tampered_mac_rejected(
    bs: Seq<bool>,
    labelmacs_0: Seq<nat>,
    labelmacs_1: Seq<nat>,
    declabels_b: Seq<nat>,
    rs_b: Seq<nat>,
    keys: (nat, nat),
    i: int,
    claimed: nat,
)
    requires
        0 <= i < bs.len(),
        labelmacs_0.len() == bs.len(),
        labelmacs_1.len() == bs.len(),
        declabels_b.len() == bs.len(),
        rs_b.len() == bs.len(),
        declabels_b[i] < fq_modulus(),
        claimed < fq_modulus(),
        is_unit(keys.1),
        claimed != declabels_b[i],
        select_spec(bs, labelmacs_0, labelmacs_1)[i] == mac_spec(keys.0, keys.1, claimed, rs_b[i]),
    ensures
        !macs_accepted_spec(bs, labelmacs_0, labelmacs_1, declabels_b, rs_b, keys),
{
    if macs_accepted_spec(bs, labelmacs_0, labelmacs_1, declabels_b, rs_b, keys) {
        assert(macs_spec(keys.0, keys.1, declabels_b, rs_b)[i] == mac_spec(
            keys.0,
            keys.1,
            declabels_b[i],
            rs_b[i],
        ));
        lemma_mac_binds_value(keys.0, keys.1, claimed, declabels_b[i], rs_b[i]);
    }
}

} // verus!
