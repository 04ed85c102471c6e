//! Pedersen commitments over the Ristretto group.
//!
//! The verifier picks a secret scalar `a` and publishes `H = a·G`. The committer
//! binds itself to a value `m` by sending `C = r·G + m·H` for a fresh scalar `r`,
//! and later opens the commitment by revealing `r`; the verifier recomputes
//! `r·G + m·H` and compares it with `C`.
use vstd::prelude::*;

pub mod group;

use group::{
    basepoint_mul, basepoint_mul_of, bytes_equal, encodings, is_point, lincomb, lincomb_of,
    random_scalar, scalar_from_u64, u64_scalar_encoding,
};
use rand::rngs::OsRng;

verus! {

/// The commitment `C = r·G + m·H`, sent from the committer to the verifier.
pub struct Commitment {
    point: [u8; 32],
}

/// The blinding scalar `r`, revealed by the committer to open a commitment.
pub struct CommitmentOpening {
    scalar: [u8; 32],
}

/// The verifier's public key `H = a·G`, sent to the committer.
#[derive(Clone, Copy)]
pub struct VerifierPublicKey {
    point: [u8; 32],
}

/// The value `m` that the committer commits to.
pub struct CommitmentValue {
    scalar: [u8; 32],
}

/// The party that commits to a value. It keeps no state between commitments.
pub struct Committer;

/// The party that checks a commitment: it holds its secret scalar, its public key,
/// and the commitment received so far, if any.
pub struct CommitVerifier {
    trapdoor: [u8; 32],
    pk: VerifierPublicKey,
    commitment: Option<Commitment>,
}

/// Why a commitment could not be checked.
#[derive(Debug, Clone, Copy, PartialEq, Eq, Structural)]
pub enum VerifyError {
    /// `verify` was called before any commitment was received.
    NoCommitment,
}

impl View for Commitment {
    type V = Seq<u8>;

    closed spec fn view(&self) -> Seq<u8> {
        self.point@
    }
}

impl View for CommitmentOpening {
    type V = Seq<u8>;

    closed spec fn view(&self) -> Seq<u8> {
        self.scalar@
    }
}

impl View for VerifierPublicKey {
    type V = Seq<u8>;

    closed spec fn view(&self) -> Seq<u8> {
        self.point@
    }
}

impl View for CommitmentValue {
    type V = Seq<u8>;

    closed spec fn view(&self) -> Seq<u8> {
        self.scalar@
    }
}

/// What `verify` answers for the key `key`, the commitment `received` (if any), the
/// value `m` and the opening `r`.
pub open spec fn verify_outcome(key: Seq<u8>, received: Option<Seq<u8>>, m: Seq<u8>, r: Seq<u8>)
    -> Result<bool, VerifyError>
{
    match received {
        None => Err(VerifyError::NoCommitment),
        Some(c) => Ok(lincomb_of(r, m, key) == Some(c)),
    }
}

impl Commitment {
    /// A commitment with the given point encoding, as received from a peer.
    pub fn from_bytes(bytes: [u8; 32]) -> (c: Self)
        ensures
            c@ == bytes@,
    {
        Commitment { point: bytes }
    }

    pub fn to_bytes(&self) -> (b: [u8; 32])
        ensures
            b@ == self@,
    {
        self.point
    }
}

impl CommitmentOpening {
    /// An opening with the given scalar encoding, as received from a peer.
    pub fn from_bytes(bytes: [u8; 32]) -> (o: Self)
        ensures
            o@ == bytes@,
    {
        CommitmentOpening { scalar: bytes }
    }

    /// The opening whose scalar is `x`.
    pub fn from_u64(x: u64) -> (o: Self)
        ensures
            o@ == u64_scalar_encoding(x),
    {
        CommitmentOpening { scalar: scalar_from_u64(x) }
    }

    pub fn to_bytes(&self) -> (b: [u8; 32])
        ensures
            b@ == self@,
    {
        self.scalar
    }
}

impl VerifierPublicKey {
    #[verifier::type_invariant]
    spec fn is_group_element(self) -> bool {
        is_point(self.point@)
    }

    pub fn to_bytes(&self) -> (b: [u8; 32])
        ensures
            b@ == self@,
    {
        self.point
    }
}

impl CommitmentValue {
    /// The value `x`; every `u64` is a scalar.
    pub fn from_u64(x: u64) -> (v: Self)
        ensures
            v@ == u64_scalar_encoding(x),
    {
        CommitmentValue { scalar: scalar_from_u64(x) }
    }

    /// A value with the given scalar encoding.
    pub fn from_bytes(bytes: [u8; 32]) -> (v: Self)
        ensures
            v@ == bytes@,
    {
        CommitmentValue { scalar: bytes }
    }

    pub fn to_bytes(&self) -> (b: [u8; 32])
        ensures
            b@ == self@,
    {
        self.scalar
    }
}

impl Committer {
    /// Commits to `val` under `pk` with the blinding scalar `opening`: the commitment is
    /// `r·G + m·H`, and the opening handed back is `opening` itself.
    pub fn commit_with_opening(opening: CommitmentOpening, val: &CommitmentValue, pk: &VerifierPublicKey)
        -> (res: (Commitment, CommitmentOpening))
        ensures
            lincomb_of(opening@, val@, pk@) == Some(res.0@),
            res.1@ == opening@,
    {
        proof {
            use_type_invariant(pk);
        }
        let combined = lincomb(&opening.scalar, &val.scalar, &pk.point);
        match combined {
            Some(point) => (Commitment { point }, opening),
            None => {
                // The key is a group element, so the combination always exists.
                proof {
                    assert(lincomb_of(opening@, val@, pk@) is Some);
                    assert(false);
                }
                (Commitment { point: [0u8; 32] }, opening)
            },
        }
    }

    /// Commits to `val` under `pk` with a blinding scalar freshly drawn from `rng`.
    pub fn commit(rng: &mut OsRng, val: &CommitmentValue, pk: &VerifierPublicKey)
        -> (res: (Commitment, CommitmentOpening))
        ensures
            lincomb_of(res.1@, val@, pk@) == Some(res.0@),
    {
        let r = random_scalar(rng);
        Committer::commit_with_opening(CommitmentOpening { scalar: r }, val, pk)
    }
}

impl CommitVerifier {
    /// The verifier's public key.
    pub closed spec fn key(&self) -> Seq<u8> {
        self.pk@
    }

    /// The secret scalar behind the public key.
    pub closed spec fn trapdoor(&self) -> Seq<u8> {
        self.trapdoor@
    }

    /// The commitment received so far, if any.
    pub closed spec fn received(&self) -> Option<Seq<u8>> {
        match self.commitment {
            Some(c) => Some(c@),
            None => None,
        }
    }

    /// The key pair for the secret scalar `a`: the public key `a·G`, and a verifier that
    /// holds `a` and that key and has received no commitment yet.
    pub fn init_with_trapdoor(a: [u8; 32]) -> (res: (VerifierPublicKey, Self))
        ensures
            res.0@ == basepoint_mul_of(a@),
            res.1.key() == res.0@,
            res.1.trapdoor() == a@,
            res.1.received() is None,
    {
        let h = basepoint_mul(&a);
        let pk = VerifierPublicKey { point: h };
        (pk, CommitVerifier { trapdoor: a, pk, commitment: None })
    }

    /// A key pair whose secret scalar is drawn from `rng`.
    pub fn init(rng: &mut OsRng) -> (res: (VerifierPublicKey, Self))
        ensures
            res.0@ == basepoint_mul_of(res.1.trapdoor()),
            res.1.key() == res.0@,
            res.1.received() is None,
    {
        let a = random_scalar(rng);
        CommitVerifier::init_with_trapdoor(a)
    }

    /// Stores `commitment`, replacing any received before.
    pub fn receive_commitment(&mut self, commitment: Commitment)
        ensures
            final(self).received() == Some(commitment@),
            final(self).key() == old(self).key(),
            final(self).trapdoor() == old(self).trapdoor(),
    {
        self.commitment = Some(commitment);
    }

    /// Compares the received commitment with the point encoding `expected`.
    pub fn check_against(&self, expected: Option<[u8; 32]>) -> (res: Result<bool, VerifyError>)
        ensures
            res == (match self.received() {
                None => Err(VerifyError::NoCommitment),
                Some(c) => Ok(encodings(expected) == Some(c)),
            }),
    {
        match &self.commitment {
            None => Err(VerifyError::NoCommitment),
            Some(c) => match &expected {
                None => Ok(false),
                Some(e) => Ok(bytes_equal(e, &c.point)),
            },
        }
    }

    /// Checks that `val` and `commitment_opening` open the received commitment under this
    /// verifier's key; an error if no commitment was received.
    pub fn verify(&self, val: &CommitmentValue, commitment_opening: &CommitmentOpening)
        -> (res: Result<bool, VerifyError>)
        ensures
            res == verify_outcome(self.key(), self.received(), val@, commitment_opening@),
    {
        if self.commitment.is_none() {
            return Err(VerifyError::NoCommitment);
        }
        let expected = lincomb(&commitment_opening.scalar, &val.scalar, &self.pk.point);
        self.check_against(expected)
    }
}

/// Completeness: for every secret scalar `a`, value `m` and blinding scalar `r`, the
/// commitment `r·G + m·H` made under the key `H = a·G` opens with `(m, r)` under that key.
pub proof fn lemma_completeness(a: Seq<u8>, r: Seq<u8>, m: Seq<u8>, c: Seq<u8>)
    requires
        lincomb_of(r, m, basepoint_mul_of(a)) == Some(c),
    ensures
        verify_outcome(basepoint_mul_of(a), Some(c), m, r) == Ok::<bool, VerifyError>(true),
{
}

/// Determinism: two commitments made with the same blinding scalar, value and key are
/// the same commitment.
pub proof fn lemma_commit_deterministic(r: Seq<u8>, m: Seq<u8>, h: Seq<u8>, c1: Seq<u8>, c2: Seq<u8>)
    requires
        lincomb_of(r, m, h) == Some(c1),
        lincomb_of(r, m, h) == Some(c2),
    ensures
        c1 == c2,
{
}

/// A verifier that has received no commitment answers every `verify` with the
/// sequencing error, never with a verdict.
pub proof fn lemma_verify_needs_commitment(key: Seq<u8>, m: Seq<u8>, r: Seq<u8>)
    ensures
        verify_outcome(key, None, m, r) == Err::<bool, VerifyError>(VerifyError::NoCommitment),
{
}

} // verus!
