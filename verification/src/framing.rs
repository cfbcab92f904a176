//! The layout of the messages that carry two vectors at once.
//!
//! Masked labels and MACs travel as one sequence of field elements: for
//! each transfer the element of branch 0, then the element of branch 1.
use crate::errors::Error;
use crate::field::{values, Fq};
use vstd::prelude::*;

verus! {

/// The sequence `a[0], b[0], a[1], b[1], ...`.
pub open spec fn interleave_spec(a: Seq<nat>, b: Seq<nat>) -> Seq<nat> {
    Seq::new(
        2 * a.len(),
        |k: int|
            if k % 2 == 0 {
                a[k / 2]
            } else {
                b[k / 2]
            },
    )
}

/// The elements at the even places of a message: those of branch 0.
pub open spec fn evens_spec(payload: Seq<nat>) -> Seq<nat> {
    Seq::new(payload.len() / 2, |i: int| payload[2 * i])
}

/// The elements at the odd places of a message: those of branch 1.
pub open spec fn odds_spec(payload: Seq<nat>) -> Seq<nat> {
    Seq::new(payload.len() / 2, |i: int| payload[2 * i + 1])
}

/// Splitting a message that was laid out from two vectors of equal length
/// gives the two vectors back.
pub proof fn lemma_interleave_round_trip(a: Seq<nat>, b: Seq<nat>)
    requires
        a.len() == b.len(),
    ensures
        evens_spec(interleave_spec(a, b)) == a,
        odds_spec(interleave_spec(a, b)) == b,
{
    assert(evens_spec(interleave_spec(a, b)) =~= a);
    assert(odds_spec(interleave_spec(a, b)) =~= b);
}

/// Lays two vectors of equal length out as one message.
pub fn interleave(a: &Vec<Fq>, b: &Vec<Fq>) -> (r: Result<Vec<Fq>, Error>)
    ensures
        r.is_ok() <==> a@.len() == b@.len() && 2 * a@.len() <= usize::MAX,
        r matches Err(e) ==> e == Error::LengthMismatch,
        r matches Ok(payload) ==> values(payload@) == interleave_spec(values(a@), values(b@)),
{
    let n = a.len();
    if b.len() != n || n > usize::MAX / 2 {
        return Err(Error::LengthMismatch);
    }
    let mut payload: Vec<Fq> = Vec::new();
    let mut i: usize = 0;
    while i < n
        invariant
            i <= n,
            a@.len() == n,
            b@.len() == n,
            payload@.len() == 2 * i,
            forall|k: int|
                0 <= k < 2 * i ==> (#[trigger] payload@[k])@ == interleave_spec(
                    values(a@),
                    values(b@),
                )[k],
        decreases n - i,
    {
        payload.push(a[i]);
        payload.push(b[i]);
        i = i + 1;
    }
    proof {
        assert(values(payload@) =~= interleave_spec(values(a@), values(b@)));
    }
    Ok(payload)
}

/// Splits a message of `2 * m` elements into the vector of branch 0 and
/// the vector of branch 1.
pub fn deinterleave(payload: &Vec<Fq>, m: usize) -> (r: Result<(Vec<Fq>, Vec<Fq>), Error>)
    ensures
        r.is_ok() <==> payload@.len() == 2 * m,
        r matches Err(e) ==> e == Error::MalformedPayload,
        r matches Ok(halves) ==> {
            &&& halves.0@.len() == m
            &&& halves.1@.len() == m
            &&& values(halves.0@) == evens_spec(values(payload@))
            &&& values(halves.1@) == odds_spec(values(payload@))
        },
{
    if payload.len() % 2 != 0 || payload.len() / 2 != m {
        return Err(Error::MalformedPayload);
    }
    let mut a: Vec<Fq> = Vec::new();
    let mut b: Vec<Fq> = Vec::new();
    let mut i: usize = 0;
    while i < m
        invariant
            i <= m,
            payload@.len() == 2 * m,
            2 * m <= usize::MAX,
            a@.len() == i,
            b@.len() == i,
            forall|j: int| 0 <= j < i ==> #[trigger] a@[j] == payload@[2 * j],
            forall|j: int| 0 <= j < i ==> #[trigger] b@[j] == payload@[2 * j + 1],
        decreases m - i,
    {
        a.push(payload[2 * i]);
        b.push(payload[2 * i + 1]);
        i = i + 1;
    }
    proof {
        assert(values(a@) =~= evens_spec(values(payload@)));
        assert(values(b@) =~= odds_spec(values(payload@)));
    }
    Ok((a, b))
}

} // verus!
