//! The base oblivious transfer: dual-key ElGamal encryption under a common
//! reference string.
//!
//! The receiver derives a public key from one branch of the reference
//! string, the branch of its choice bit. The sender encrypts one message
//! under each branch; a ciphertext opens under the receiver's secret scalar
//! when its branch is the one the key was derived from.
use crate::curve::{g1_add, g1_mul, Point, PointView};
use crate::errors::Error;
use crate::field::{fq_add, fq_sub, values, Fq, Fr};
use rand::rngs::StdRng;
use vstd::prelude::*;

verus! {

/// How often a sampling step is repeated before the generator is given up.
pub const SAMPLING_ATTEMPTS: usize = 64;

/// The view of a public key: its two points.
pub type KeyView = (PointView, PointView);

/// The view of a reference string: generator and power of branch 0, then
/// generator and power of branch 1.
pub type CrsView = (PointView, PointView, PointView, PointView);

/// The view of a ciphertext: its point and its masked field element.
pub type CiphertextView = (PointView, nat);

/// The secret scalar that belongs to one public key.
pub type SecretKey = Fr;

/// The receiver's key for one transfer.
#[derive(Clone, Copy, Debug, PartialEq, Eq)]
pub struct PublicKey {
    g: Point,
    h: Point,
}

impl View for PublicKey {
    type V = KeyView;

    closed spec fn view(&self) -> KeyView {
        (self.g@, self.h@)
    }
}

impl PublicKey {
    /// The key made of the two given points.
    pub fn new(g: Point, h: Point) -> (r: PublicKey)
        ensures
            r@ == (g@, h@),
    {
        PublicKey { g, h }
    }

    /// The first point of the key.
    pub fn g(&self) -> (r: Point)
        ensures
            r@ == self@.0,
    {
        self.g
    }

    /// The second point of the key.
    pub fn h(&self) -> (r: Point)
        ensures
            r@ == self@.1,
    {
        self.h
    }
}

/// The common reference string: two branches, each a generator and a
/// power of it.
#[derive(Clone, Copy, Debug, PartialEq, Eq)]
pub struct CRS {
    g0: Point,
    h0: Point,
    g1: Point,
    h1: Point,
}

impl View for CRS {
    type V = CrsView;

    closed spec fn view(&self) -> CrsView {
        (self.g0@, self.h0@, self.g1@, self.h1@)
    }
}

/// The reference string with generators `g0`, `g1` and exponents `x0`, `x1`.
pub open spec fn crs_spec(g0: PointView, g1: PointView, x0: nat, x1: nat) -> CrsView {
    (g0, g1_mul(g0, x0), g1, g1_mul(g1, x1))
}

/// Whether two exponents may be used for the two branches: they differ and
/// neither is zero.
pub open spec fn exponents_admissible(x0: nat, x1: nat) -> bool {
    x0 != x1 && x0 != 0 && x1 != 0
}

/// Whether a reference string was made with admissible exponents over
/// generators that are not the identity.
pub open spec fn crs_well_generated(crs: CrsView) -> bool {
    &&& !crs.0.2
    &&& !crs.2.2
    &&& exists|x0: nat, x1: nat|
        exponents_admissible(x0, x1) && crs == #[trigger] crs_spec(crs.0, crs.2, x0, x1)
}

impl CRS {
    /// The reference string made of four points that were distributed
    /// beforehand.
    pub fn from_points(g0: Point, h0: Point, g1: Point, h1: Point) -> (r: CRS)
        ensures
            r@ == (g0@, h0@, g1@, h1@),
    {
        CRS { g0, h0, g1, h1 }
    }

    /// The reference string with the given generators and exponents, unless
    /// the exponents coincide, one of them is zero, or one of the
    /// generators is the identity.
    pub fn from_exponents(g0: Point, g1: Point, x0: &Fr, x1: &Fr) -> (r: Option<CRS>)
        ensures
            r.is_some() <==> exponents_admissible(x0@, x1@) && !g0@.2 && !g1@.2,
            r matches Some(crs) ==> crs@ == crs_spec(g0@, g1@, x0@, x1@),
    {
        if x0.equals(x1) || x0.is_zero() || x1.is_zero() || g0.is_identity()
            || g1.is_identity() {
            None
        } else {
            let h0 = g0.mul(x0);
            let h1 = g1.mul(x1);
            Some(CRS { g0, h0, g1, h1 })
        }
    }

    /// The generator of branch 0.
    pub fn g0(&self) -> (r: Point)
        ensures
            r@ == self@.0,
    {
        self.g0
    }

    /// The power of the generator of branch 0.
    pub fn h0(&self) -> (r: Point)
        ensures
            r@ == self@.1,
    {
        self.h0
    }

    /// The generator of branch 1.
    pub fn g1(&self) -> (r: Point)
        ensures
            r@ == self@.2,
    {
        self.g1
    }

    /// The power of the generator of branch 1.
    pub fn h1(&self) -> (r: Point)
        ensures
            r@ == self@.3,
    {
        self.h1
    }
}

/// Samples a common reference string: two generators and two exponents.
/// A degenerate sample is thrown away and all four are sampled again, at
/// most [`SAMPLING_ATTEMPTS`] times in all.
pub fn SetupMessy(rng: &mut StdRng) -> (r: Result<CRS, Error>)
    ensures
        r matches Ok(crs) ==> crs_well_generated(crs@),
        r matches Err(e) ==> e == Error::Randomness,
{
    let mut attempt: usize = 0;
    while attempt < SAMPLING_ATTEMPTS
        invariant
            attempt <= SAMPLING_ATTEMPTS,
        decreases SAMPLING_ATTEMPTS - attempt,
    {
        let g0 = Point::random(rng);
        let g1 = Point::random(rng);
        let x0 = Fr::random(rng);
        let x1 = Fr::random(rng);
        match CRS::from_exponents(g0, g1, &x0, &x1) {
            Some(crs) => {
                assert(crs@ == crs_spec(crs@.0, crs@.2, x0@, x1@));
                return Ok(crs);
            },
            None => {},
        }
        attempt = attempt + 1;
    }
    Err(Error::Randomness)
}

/// The generator and its power on the branch of bit `b`.
pub open spec fn branch_spec(crs: CrsView, b: bool) -> KeyView {
    if b {
        (crs.2, crs.3)
    } else {
        (crs.0, crs.1)
    }
}

/// The public key for choice bit `b` and secret scalar `r`: both points of
/// the bit's branch raised to `r`.
pub open spec fn public_key_spec(crs: CrsView, b: bool, r: nat) -> KeyView {
    (g1_mul(branch_spec(crs, b).0, r), g1_mul(branch_spec(crs, b).1, r))
}

/// The pair `(g^s h^t, g*^s h*^t)`.
pub open spec fn randomize_spec(
    g: PointView,
    h: PointView,
    g_star: PointView,
    h_star: PointView,
    s: nat,
    t: nat,
) -> KeyView {
    (g1_add(g1_mul(g, s), g1_mul(h, t)), g1_add(g1_mul(g_star, s), g1_mul(h_star, t)))
}

/// The ciphertext of `x`: the first point of the pair above, and `x` plus
/// the first coordinate of the second.
pub open spec fn ddh_enc_spec(
    x: nat,
    g: PointView,
    h: PointView,
    g_star: PointView,
    h_star: PointView,
    s: nat,
    t: nat,
) -> CiphertextView {
    (
        randomize_spec(g, h, g_star, h_star, s, t).0,
        fq_add(randomize_spec(g, h, g_star, h_star, s, t).1.0, x),
    )
}

/// What secret scalar `sk` opens the ciphertext `(u, vx)` to.
pub open spec fn dec_spec(sk: nat, u: PointView, vx: nat) -> nat {
    fq_sub(vx, g1_mul(u, sk).0)
}

/// Whether `ct` encrypts `x` on the branch `(g, h)` under the key `pk`, for
/// some pair of blinding scalars.
pub open spec fn is_encryption_of(ct: CiphertextView, x: nat, branch: KeyView, pk: KeyView) -> bool {
    exists|s: nat, t: nat| ct == #[trigger] ddh_enc_spec(x, branch.0, branch.1, pk.0, pk.1, s, t)
}

/// The public keys that a key message carries: for each transfer two
/// points, in order.
pub open spec fn keys_of_message_spec(payload: Seq<PointView>) -> Seq<KeyView> {
    Seq::new(payload.len() / 2, |i: int| (payload[2 * i], payload[2 * i + 1]))
}

/// The key message of a receiver with the given choice bits and secret
/// scalars: for each transfer the two points of its public key, in order.
pub open spec fn key_message_spec(crs: CrsView, bs: Seq<bool>, sks: Seq<nat>) -> Seq<PointView> {
    Seq::new(
        2 * bs.len(),
        |k: int|
            if k % 2 == 0 {
                public_key_spec(crs, bs[k / 2], sks[k / 2]).0
            } else {
                public_key_spec(crs, bs[k / 2], sks[k / 2]).1
            },
    )
}

/// Whether `payload` is a message of the base transfer of the pairs
/// `(xs_0[i], xs_1[i])` under the keys `pks`: for each transfer a
/// ciphertext of `xs_0[i]` on branch 0, then one of `xs_1[i]` on branch 1.
pub open spec fn is_transfer_of(
    payload: Seq<CiphertextView>,
    xs_0: Seq<nat>,
    xs_1: Seq<nat>,
    crs: CrsView,
    pks: Seq<KeyView>,
) -> bool {
    &&& payload.len() == 2 * pks.len()
    &&& forall|i: int|
        0 <= i < pks.len() ==> is_encryption_of(
            #[trigger] payload[2 * i],
            xs_0[i],
            branch_spec(crs, false),
            pks[i],
        )
    &&& forall|i: int|
        0 <= i < pks.len() ==> is_encryption_of(
            #[trigger] payload[2 * i + 1],
            xs_1[i],
            branch_spec(crs, true),
            pks[i],
        )
}

/// What a receiver with the given secret scalars and choice bits opens a
/// message of the base transfer to: for each transfer the ciphertext of
/// the branch of its bit.
pub open spec fn received_spec(sks: Seq<nat>, bs: Seq<bool>, payload: Seq<CiphertextView>) -> Seq<nat> {
    Seq::new(
        bs.len(),
        |i: int|
            dec_spec(
                sks[i],
                payload[chosen_slot(i, bs[i])].0,
                payload[chosen_slot(i, bs[i])].1,
            ),
    )
}

/// Where the ciphertext of branch `b` of transfer `i` stands in the
/// sender's message.
pub open spec fn chosen_slot(i: int, b: bool) -> int {
    if b {
        2 * i + 1
    } else {
        2 * i
    }
}

/// One ciphertext: a point and a masked field element.
#[derive(Clone, Copy, Debug, PartialEq, Eq)]
pub struct Ciphertext {
    u: Point,
    v: Fq,
}

impl View for Ciphertext {
    type V = CiphertextView;

    closed spec fn view(&self) -> CiphertextView {
        (self.u@, self.v@)
    }
}

/// The views of a message of ciphertexts.
pub open spec fn ciphertext_views(s: Seq<Ciphertext>) -> Seq<CiphertextView> {
    s.map_values(|ct: Ciphertext| ct@)
}

/// The views of a message of points.
pub open spec fn point_views(s: Seq<Point>) -> Seq<PointView> {
    s.map_values(|p: Point| p@)
}

impl Ciphertext {
    /// The ciphertext made of a point and a field element.
    pub fn new(u: Point, v: Fq) -> (r: Ciphertext)
        ensures
            r@ == (u@, v@),
    {
        Ciphertext { u, v }
    }

    /// The point of the ciphertext.
    pub fn u(&self) -> (r: Point)
        ensures
            r@ == self@.0,
    {
        self.u
    }

    /// The masked field element of the ciphertext.
    pub fn v(&self) -> (r: Fq)
        ensures
            r@ == self@.1,
    {
        self.v
    }
}

/// Oblivious transfer sender.
pub struct Sender {
    m: usize,
    pks: Vec<PublicKey>,
}

impl Sender {
    #[verifier::type_invariant]
    spec fn well_formed(self) -> bool {
        self.pks@.len() == self.m
    }

    /// The number of transfers in the batch.
    pub closed spec fn batch_size(&self) -> nat {
        self.m as nat
    }

    /// The receiver's public keys, one for each transfer.
    pub closed spec fn public_keys(&self) -> Seq<KeyView> {
        self.pks@.map_values(|pk: PublicKey| pk@)
    }

    /// The name of this party.
    pub fn to_string(&self) -> (r: String)
        ensures
            r@ == "PVW Sender"@,
    {
        "PVW Sender".to_owned()
    }

    /// Takes the receiver's key message: for each transfer the two points
    /// of its public key, in order.
    pub fn init(m: usize, payload: &Vec<Point>) -> (r: Result<Sender, Error>)
        ensures
            r.is_ok() <==> payload@.len() == 2 * m,
            r matches Err(e) ==> e == Error::MalformedPayload,
            r matches Ok(sender) ==> {
                &&& sender.batch_size() == m
                &&& sender.public_keys() == keys_of_message_spec(point_views(payload@))
            },
    {
        if payload.len() % 2 != 0 || payload.len() / 2 != m {
            return Err(Error::MalformedPayload);
        }
        let mut pks: Vec<PublicKey> = Vec::new();
        let mut i: usize = 0;
        while i < m
            invariant
                i <= m,
                payload@.len() == 2 * m,
                2 * m <= usize::MAX,
                pks@.len() == i,
                forall|j: int|
                    0 <= j < i ==> #[trigger] pks@[j]@ == (payload@[2 * j]@, payload@[2 * j + 1]@),
            decreases m - i,
        {
            pks.push(PublicKey::new(payload[2 * i], payload[2 * i + 1]));
            i = i + 1;
        }
        let sender = Sender { m, pks };
        proof {
            assert(sender.public_keys() =~= keys_of_message_spec(point_views(payload@)));
        }
        Ok(sender)
    }

    /// Re-randomises the pair `(g, h)` and the pair `(g_star, h_star)` with
    /// the same two scalars.
    pub fn Randomize(
        g: &Point,
        h: &Point,
        g_star: &Point,
        h_star: &Point,
        s: &Fr,
        t: &Fr,
    ) -> (r: (Point, Point))
        ensures
            (r.0@, r.1@) == randomize_spec(g@, h@, g_star@, h_star@, s@, t@),
    {
        let u = g.mul(s).add(&h.mul(t));
        let v = g_star.mul(s).add(&h_star.mul(t));
        (u, v)
    }

    /// Encrypts `x` on the branch `(g, h)` under the key `(g_star, h_star)`
    /// with blinding scalars `s` and `t`.
    pub fn DDHEnc(
        x: &Fq,
        g: &Point,
        h: &Point,
        g_star: &Point,
        h_star: &Point,
        s: &Fr,
        t: &Fr,
    ) -> (r: Ciphertext)
        ensures
            r@ == ddh_enc_spec(x@, g@, h@, g_star@, h_star@, s@, t@),
    {
        let (u, v) = Sender::Randomize(g, h, g_star, h_star, s, t);
        let vx = v.x().add(x);
        Ciphertext { u, v: vx }
    }

    /// Encrypts, for each transfer, the message of branch 0 and the message
    /// of branch 1 under the receiver's key, with fresh blinding scalars.
    pub fn Enc(&self, xs_0: &Vec<Fq>, xs_1: &Vec<Fq>, crs: &CRS, rng: &mut StdRng) -> (r: Result<
        (Vec<Ciphertext>, Vec<Ciphertext>),
        Error,
    >)
        ensures
            r.is_ok() <==> xs_0@.len() == self.batch_size() && xs_1@.len() == self.batch_size(),
            r matches Err(e) ==> e == Error::LengthMismatch,
            r matches Ok(cts) ==> {
                &&& cts.0@.len() == self.batch_size()
                &&& cts.1@.len() == self.batch_size()
                &&& forall|i: int|
                    0 <= i < self.batch_size() ==> is_encryption_of(
                        #[trigger] cts.0@[i]@,
                        xs_0@[i]@,
                        branch_spec(crs@, false),
                        self.public_keys()[i],
                    )
                &&& forall|i: int|
                    0 <= i < self.batch_size() ==> is_encryption_of(
                        #[trigger] cts.1@[i]@,
                        xs_1@[i]@,
                        branch_spec(crs@, true),
                        self.public_keys()[i],
                    )
            },
    {
        proof {
            use_type_invariant(self);
        }
        if xs_0.len() != self.m || xs_1.len() != self.m {
            return Err(Error::LengthMismatch);
        }
        let mut cts_0: Vec<Ciphertext> = Vec::new();
        let mut cts_1: Vec<Ciphertext> = Vec::new();
        let mut i: usize = 0;
        while i < self.m
            invariant
                i <= self.m,
                self.pks@.len() == self.m,
                xs_0@.len() == self.m,
                xs_1@.len() == self.m,
                cts_0@.len() == i,
                cts_1@.len() == i,
                forall|j: int|
                    0 <= j < i ==> is_encryption_of(
                        #[trigger] cts_0@[j]@,
                        xs_0@[j]@,
                        branch_spec(crs@, false),
                        self.public_keys()[j],
                    ),
                forall|j: int|
                    0 <= j < i ==> is_encryption_of(
                        #[trigger] cts_1@[j]@,
                        xs_1@[j]@,
                        branch_spec(crs@, true),
                        self.public_keys()[j],
                    ),
            decreases self.m - i,
        {
            let pk = &self.pks[i];
            let s0 = Fr::random(rng);
            let t0 = Fr::random(rng);
            let c0 = Sender::DDHEnc(&xs_0[i], &crs.g0, &crs.h0, &pk.g, &pk.h, &s0, &t0);
            let s1 = Fr::random(rng);
            let t1 = Fr::random(rng);
            let c1 = Sender::DDHEnc(&xs_1[i], &crs.g1, &crs.h1, &pk.g, &pk.h, &s1, &t1);
            proof {
                assert(self.public_keys()[i as int] == pk@);
                assert(c0@ == ddh_enc_spec(
                    xs_0@[i as int]@,
                    branch_spec(crs@, false).0,
                    branch_spec(crs@, false).1,
                    pk@.0,
                    pk@.1,
                    s0@,
                    t0@,
                ));
                assert(c1@ == ddh_enc_spec(
                    xs_1@[i as int]@,
                    branch_spec(crs@, true).0,
                    branch_spec(crs@, true).1,
                    pk@.0,
                    pk@.1,
                    s1@,
                    t1@,
                ));
            }
            cts_0.push(c0);
            cts_1.push(c1);
            i = i + 1;
        }
        Ok((cts_0, cts_1))
    }

    /// The message that carries one batch of transfers: for each transfer
    /// the ciphertext of branch 0, then the ciphertext of branch 1.
    pub fn send(&self, xs_0: &Vec<Fq>, xs_1: &Vec<Fq>, crs: &CRS, rng: &mut StdRng) -> (r: Result<
        Vec<Ciphertext>,
        Error,
    >)
        ensures
            r.is_ok() <==> xs_0@.len() == self.batch_size() && xs_1@.len() == self.batch_size(),
            r matches Err(e) ==> e == Error::LengthMismatch,
            r matches Ok(payload) ==> is_transfer_of(
                ciphertext_views(payload@),
                values(xs_0@),
                values(xs_1@),
                crs@,
                self.public_keys(),
            ),
    {
        proof {
            use_type_invariant(self);
        }
        let (cts_0, cts_1) = match self.Enc(xs_0, xs_1, crs, rng) {
            Ok(cts) => cts,
            Err(e) => {
                return Err(e);
            },
        };
        let mut payload: Vec<Ciphertext> = Vec::new();
        let mut i: usize = 0;
        while i < self.m
            invariant
                i <= self.m,
                cts_0@.len() == self.m,
                cts_1@.len() == self.m,
                payload@.len() == 2 * i,
                forall|j: int| 0 <= j < i ==> #[trigger] payload@[2 * j] == cts_0@[j],
                forall|j: int| 0 <= j < i ==> #[trigger] payload@[2 * j + 1] == cts_1@[j],
            decreases self.m - i,
        {
            payload.push(cts_0[i]);
            payload.push(cts_1[i]);
            i = i + 1;
        }
        proof {
            let views = ciphertext_views(payload@);
            assert forall|i: int| 0 <= i < self.public_keys().len() implies is_encryption_of(
                #[trigger] views[2 * i],
                values(xs_0@)[i],
                branch_spec(crs@, false),
                self.public_keys()[i],
            ) by {
                assert(views[2 * i] == cts_0@[i]@);
            }
            assert forall|i: int| 0 <= i < self.public_keys().len() implies is_encryption_of(
                #[trigger] views[2 * i + 1],
                values(xs_1@)[i],
                branch_spec(crs@, true),
                self.public_keys()[i],
            ) by {
                assert(views[2 * i + 1] == cts_1@[i]@);
            }
        }
        Ok(payload)
    }
}

/// Oblivious transfer receiver.
pub struct Receiver {
    m: usize,
    sks: Vec<SecretKey>,
}

impl Receiver {
    #[verifier::type_invariant]
    spec fn well_formed(self) -> bool {
        &&& self.sks@.len() == self.m
        &&& forall|i: int| 0 <= i < self.sks@.len() ==> (#[trigger] self.sks@[i])@ != 0
    }

    /// The number of transfers in the batch.
    pub closed spec fn batch_size(&self) -> nat {
        self.m as nat
    }

    /// The secret scalars, one for each transfer.
    pub closed spec fn secret_keys(&self) -> Seq<nat> {
        self.sks@.map_values(|sk: SecretKey| sk@)
    }

    /// The name of this party.
    pub fn to_string(&self) -> (r: String)
        ensures
            r@ == "PVW Receiver"@,
    {
        "PVW Receiver".to_owned()
    }

    /// The key pair for choice bit `b` and scalar `r`, unless `r` is zero
    /// or the first point of the public key is the identity.
    pub fn key_pair(crs: &CRS, b: bool, r: SecretKey) -> (pair: Option<(PublicKey, SecretKey)>)
        ensures
            pair.is_some() <==> r@ != 0 && !public_key_spec(crs@, b, r@).0.2,
            pair matches Some(kp) ==> kp.0@ == public_key_spec(crs@, b, r@) && kp.1@ == r@,
    {
        if r.is_zero() {
            return None;
        }
        let (g, h) = if b {
            (crs.g1.mul(&r), crs.h1.mul(&r))
        } else {
            (crs.g0.mul(&r), crs.h0.mul(&r))
        };
        if g.is_identity() {
            None
        } else {
            Some((PublicKey { g, h }, r))
        }
    }

    /// Samples the key pair for one choice bit. A degenerate scalar is
    /// sampled again, at most [`SAMPLING_ATTEMPTS`] times in all.
    fn sample_key_pair(crs: &CRS, b: bool, rng: &mut StdRng) -> (r: Result<
        (PublicKey, SecretKey),
        Error,
    >)
        ensures
            r matches Ok(kp) ==> kp.1@ != 0 && kp.0@ == public_key_spec(crs@, b, kp.1@)
                && !kp.0@.0.2,
            r matches Err(e) ==> e == Error::Randomness,
    {
        let mut attempt: usize = 0;
        while attempt < SAMPLING_ATTEMPTS
            invariant
                attempt <= SAMPLING_ATTEMPTS,
            decreases SAMPLING_ATTEMPTS - attempt,
        {
            let r = Fr::random(rng);
            match Receiver::key_pair(crs, b, r) {
                Some(kp) => {
                    return Ok(kp);
                },
                None => {},
            }
            attempt = attempt + 1;
        }
        Err(Error::Randomness)
    }

    /// Samples one key pair for each choice bit.
    pub fn KeyGen(crs: &CRS, bs: &Vec<bool>, rng: &mut StdRng) -> (r: Result<
        (Vec<PublicKey>, Vec<SecretKey>),
        Error,
    >)
        ensures
            bs@.len() == 0 ==> r.is_ok(),
            r matches Err(e) ==> e == Error::Randomness,
            r matches Ok(keys) ==> {
                &&& keys.0@.len() == bs@.len()
                &&& keys.1@.len() == bs@.len()
                &&& forall|i: int|
                    0 <= i < bs@.len() ==> {
                        &&& (#[trigger] keys.1@[i])@ != 0
                        &&& keys.0@[i]@ == public_key_spec(crs@, bs@[i], keys.1@[i]@)
                        &&& !keys.0@[i]@.0.2
                    }
            },
    {
        let mut pks: Vec<PublicKey> = Vec::new();
        let mut sks: Vec<SecretKey> = Vec::new();
        let mut i: usize = 0;
        while i < bs.len()
            invariant
                i <= bs@.len(),
                pks@.len() == i,
                sks@.len() == i,
                forall|j: int|
                    0 <= j < i ==> {
                        &&& (#[trigger] sks@[j])@ != 0
                        &&& pks@[j]@ == public_key_spec(crs@, bs@[j], sks@[j]@)
                        &&& !pks@[j]@.0.2
                    },
            decreases bs@.len() - i,
        {
            match Receiver::sample_key_pair(crs, bs[i], rng) {
                Ok(kp) => {
                    pks.push(kp.0);
                    sks.push(kp.1);
                },
                Err(e) => {
                    return Err(e);
                },
            }
            i = i + 1;
        }
        Ok((pks, sks))
    }

    /// Generates the keys of a batch. Beside the receiver's state this
    /// gives the key message for the sender: for each transfer the two
    /// points of its public key, in order.
    pub fn init(crs: &CRS, m: usize, bs: &Vec<bool>, rng: &mut StdRng) -> (r: Result<
        (Receiver, Vec<Point>),
        Error,
    >)
        ensures
            m != bs@.len() ==> r == Err::<(Receiver, Vec<Point>), Error>(Error::LengthMismatch),
            m == 0 && bs@.len() == 0 ==> r.is_ok(),
            m == bs@.len() ==> (r matches Err(e) ==> e == Error::Randomness),
            r matches Ok(out) ==> {
                &&& m == bs@.len()
                &&& out.0.batch_size() == m
                &&& out.0.secret_keys().len() == m
                &&& forall|i: int| 0 <= i < m ==> #[trigger] out.0.secret_keys()[i] != 0
                &&& point_views(out.1@) == key_message_spec(crs@, bs@, out.0.secret_keys())
            },
    {
        if m != bs.len() {
            return Err(Error::LengthMismatch);
        }
        let (pks, sks) = match Receiver::KeyGen(crs, bs, rng) {
            Ok(keys) => keys,
            Err(e) => {
                return Err(e);
            },
        };
        let mut payload: Vec<Point> = Vec::new();
        let mut i: usize = 0;
        while i < m
            invariant
                i <= m,
                pks@.len() == m,
                payload@.len() == 2 * i,
                forall|j: int| 0 <= j < i ==> (#[trigger] payload@[2 * j])@ == pks@[j]@.0,
                forall|j: int| 0 <= j < i ==> (#[trigger] payload@[2 * j + 1])@ == pks@[j]@.1,
            decreases m - i,
        {
            payload.push(pks[i].g);
            payload.push(pks[i].h);
            i = i + 1;
        }
        let receiver = Receiver { m, sks };
        proof {
            assert forall|i: int| 0 <= i < m implies #[trigger] receiver.secret_keys()[i]
                != 0 by {
                assert(receiver.secret_keys()[i] == sks@[i]@);
            }
            let want = key_message_spec(crs@, bs@, receiver.secret_keys());
            assert forall|k: int| 0 <= k < 2 * m implies point_views(payload@)[k] == want[k] by {
                let i = k / 2;
                assert(receiver.secret_keys()[i] == sks@[i]@);
                if k % 2 == 0 {
                    assert(payload@[2 * i]@ == pks@[i]@.0);
                } else {
                    assert(payload@[2 * i + 1]@ == pks@[i]@.1);
                }
            }
            assert(point_views(payload@) =~= want);
        }
        Ok((receiver, payload))
    }

    /// Opens the ciphertext `(c0, c1)` with the secret scalar `sk`.
    pub fn Dec(sk: &SecretKey, c0: &Point, c1: &Fq) -> (r: Fq)
        ensures
            r@ == dec_spec(sk@, c0@, c1@),
    {
        c1.sub(&c0.mul(sk).x())
    }

    /// Takes the sender's message of one batch and opens, for each
    /// transfer, the ciphertext of the branch of its choice bit. The other
    /// ciphertext is not touched.
    pub fn receive(&self, payload: &Vec<Ciphertext>, bs: &Vec<bool>) -> (r: Result<Vec<Fq>, Error>)
        ensures
            r.is_ok() <==> bs@.len() == self.batch_size() && payload@.len() == 2
                * self.batch_size(),
            r.is_err() && bs@.len() != self.batch_size() ==> r == Err::<Vec<Fq>, Error>(
                Error::LengthMismatch,
            ),
            r.is_err() && bs@.len() == self.batch_size() ==> r == Err::<Vec<Fq>, Error>(
                Error::MalformedPayload,
            ),
            r matches Ok(xs_b) ==> xs_b@.len() == self.batch_size() && values(xs_b@)
                == received_spec(self.secret_keys(), bs@, ciphertext_views(payload@)),
    {
        proof {
            use_type_invariant(self);
        }
        if bs.len() != self.m {
            return Err(Error::LengthMismatch);
        }
        if payload.len() % 2 != 0 || payload.len() / 2 != self.m {
            return Err(Error::MalformedPayload);
        }
        let mut xs_b: Vec<Fq> = Vec::new();
        let mut i: usize = 0;
        while i < self.m
            invariant
                i <= self.m,
                self.sks@.len() == self.m,
                bs@.len() == self.m,
                payload@.len() == 2 * self.m,
                2 * self.m <= usize::MAX,
                xs_b@.len() == i,
                forall|j: int|
                    0 <= j < i ==> (#[trigger] xs_b@[j])@ == dec_spec(
                        self.secret_keys()[j],
                        payload@[chosen_slot(j, bs@[j])]@.0,
                        payload@[chosen_slot(j, bs@[j])]@.1,
                    ),
            decreases self.m - i,
        {
            let ct = if bs[i] {
                &payload[2 * i + 1]
            } else {
                &payload[2 * i]
            };
            proof {
                assert(self.secret_keys()[i as int] == self.sks@[i as int]@);
            }
            xs_b.push(Receiver::Dec(&self.sks[i], &ct.u, &ct.v));
            i = i + 1;
        }
        proof {
            assert(values(xs_b@) =~= received_spec(
                self.secret_keys(),
                bs@,
                ciphertext_views(payload@),
            ));
        }
        Ok(xs_b)
    }
}

} // verus!
