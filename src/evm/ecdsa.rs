//! Signer recovery that rejects malleable signatures and degenerate
//! recoveries around an untrusted recovery service.
use vstd::prelude::*;
use crate::evm::precompile::OracleError;
use crate::evm::word::{be_value, is_lower_half, is_lower_half_order, secp256k1_n};

verus! {

/// Why a signature yields no signer.
#[derive(Debug, Clone, Copy, PartialEq, Eq, Structural)]
pub enum Error {
    /// `v` is neither 27 nor 28.
    InvalidSignatureV,
    /// `s` lies above half the group order: the malleable twin of a signature.
    InvalidSignatureS,
    /// The recovery service failed or answered with malformed data.
    OracleUnavailable,
    /// The recovery service derived the zero address.
    InvalidSignature,
}

/// Whether `v` is one of the two recovery identifiers, 27 and 28.
pub open spec fn is_valid_v(v: u8) -> bool {
    v == 27 || v == 28
}

/// Whether every byte of the address `a` is zero.
pub open spec fn is_zero_address(a: Seq<u8>) -> bool {
    forall|i: int| 0 <= i < a.len() ==> a[i] == 0
}

/// The verdict of the checks made before the service is asked: `v` first,
/// then `s`.
pub open spec fn precheck(v: u8, s: Seq<u8>) -> Result<(), Error> {
    if !is_valid_v(v) {
        Err(Error::InvalidSignatureV)
    } else if !is_lower_half(s) {
        Err(Error::InvalidSignatureS)
    } else {
        Ok(())
    }
}

/// What becomes of the service's answer: a failure is reported as such, the
/// zero address is refused, any other address is handed on unchanged.
pub open spec fn accept_answer(answer: Result<[u8; 20], OracleError>) -> Result<[u8; 20], Error> {
    match answer {
        Ok(a) => if is_zero_address(a@) {
            Err(Error::InvalidSignature)
        } else {
            Ok(a)
        },
        Err(_) => Err(Error::OracleUnavailable),
    }
}

/// Applies the checks on `v` and `s` that need no recovery.
pub fn check_signature(v: u8, s: &[u8; 32]) -> (res: Result<(), Error>)
    ensures
        res == precheck(v, s@),
{
    if v != 27 && v != 28 {
        Err(Error::InvalidSignatureV)
    } else if !is_lower_half_order(s) {
        Err(Error::InvalidSignatureS)
    } else {
        Ok(())
    }
}

/// Whether every byte of `a` is zero.
pub fn is_zero(a: &[u8; 20]) -> (res: bool)
    ensures
        res == is_zero_address(a@),
{
    let mut i: usize = 0;
    while i < 20
        invariant
            i <= 20,
            forall|j: int| 0 <= j < i ==> a@[j] == 0,
        decreases 20 - i,
    {
        if a[i] != 0 {
            return false;
        }
        i += 1;
    }
    true
}

/// Turns the service's answer into the result of a recovery.
pub fn accept_recovered(answer: Result<[u8; 20], OracleError>) -> (res: Result<[u8; 20], Error>)
    ensures
        res == accept_answer(answer),
{
    match answer {
        Err(_) => Err(Error::OracleUnavailable),
        Ok(a) => if is_zero(&a) {
            Err(Error::InvalidSignature)
        } else {
            Ok(a)
        },
    }
}

/// Whether `res` is a result that a recovery of `digest` under `(v, r, s)` may
/// give when `oracle` stands for the recovery service.
///
/// A signature that fails the checks gets their verdict. Otherwise the
/// service is asked once, with exactly `(digest, v, r, s)`, and the result is
/// what becomes of one answer that it may give.
pub open spec fn is_recovery_by<F: FnOnce([u8; 32], u8, [u8; 32], [u8; 32]) -> Result<
    [u8; 20],
    OracleError,
>>(oracle: F, digest: [u8; 32], v: u8, r: [u8; 32], s: [u8; 32], res: Result<[u8; 20], Error>) -> bool {
    match precheck(v, s@) {
        Err(e) => res == Err::<[u8; 20], Error>(e),
        Ok(_) => exists|answer: Result<[u8; 20], OracleError>|
            call_ensures(oracle, (digest, v, r, s), answer) && res == accept_answer(answer),
    }
}

/// Whether `oracle` has at most one answer to the request `(digest, v, r, s)`.
pub open spec fn answers_uniquely<F: FnOnce([u8; 32], u8, [u8; 32], [u8; 32]) -> Result<
    [u8; 20],
    OracleError,
>>(oracle: F, digest: [u8; 32], v: u8, r: [u8; 32], s: [u8; 32]) -> bool {
    forall|a: Result<[u8; 20], OracleError>, b: Result<[u8; 20], OracleError>|
        call_ensures(oracle, (digest, v, r, s), a) && call_ensures(oracle, (digest, v, r, s), b)
            ==> a == b
}

/// Recovers signers of ECDSA signatures over secp256k1.
pub struct ECDSA {}

impl ECDSA {
    /// Recovers the signer of `digest` under the signature `(v, r, s)`.
    ///
    /// `v` must be 27 or 28 and `s` at most half the group order; only then
    /// is `oracle`, the recovery service, called, once, with the arguments
    /// as given. Its failure, or a zero address, is an error; any other
    /// address it gives is the result. The service's precondition is needed
    /// only for signatures that pass the checks, so a service that must not
    /// be asked about any other can be handed in.
    pub fn recover<F: FnOnce([u8; 32], u8, [u8; 32], [u8; 32]) -> Result<[u8; 20], OracleError>>(
        &self,
        oracle: F,
        digest: &[u8; 32],
        v: u8,
        r: &[u8; 32],
        s: &[u8; 32],
    ) -> (res: Result<[u8; 20], Error>)
        requires
            precheck(v, s@) is Ok ==> call_requires(oracle, (*digest, v, *r, *s)),
        ensures
            is_recovery_by(oracle, *digest, v, *r, *s, res),
            !is_valid_v(v) ==> res == Err::<[u8; 20], Error>(Error::InvalidSignatureV),
            is_valid_v(v) && !is_lower_half(s@) ==> res == Err::<[u8; 20], Error>(
                Error::InvalidSignatureS,
            ),
            res is Ok ==> !is_zero_address(res->Ok_0@),
    {
        match check_signature(v, s) {
            Err(e) => Err(e),
            Ok(_) => {
                let answer = oracle(*digest, v, *r, *s);
                accept_recovered(answer)
            },
        }
    }
}

/// A signature that passes the checks, recovered by a service that derives
/// the zero address, is refused as invalid.
pub proof fn lemma_zero_address_refused<F: FnOnce([u8; 32], u8, [u8; 32], [u8; 32]) -> Result<
    [u8; 20],
    OracleError,
>>(oracle: F, digest: [u8; 32], v: u8, r: [u8; 32], s: [u8; 32], res: Result<[u8; 20], Error>)
    requires
        is_valid_v(v),
        is_lower_half(s@),
        forall|answer: Result<[u8; 20], OracleError>|
            call_ensures(oracle, (digest, v, r, s), answer) ==> (answer matches Ok(a)
                && is_zero_address(a@)),
        is_recovery_by(oracle, digest, v, r, s, res),
    ensures
        res == Err::<[u8; 20], Error>(Error::InvalidSignature),
{
}

/// A signature that passes the checks, recovered by a service that derives
/// the non-zero address `a`, recovers exactly `a`.
pub proof fn lemma_address_passed_through<F: FnOnce([u8; 32], u8, [u8; 32], [u8; 32]) -> Result<
    [u8; 20],
    OracleError,
>>(
    oracle: F,
    digest: [u8; 32],
    v: u8,
    r: [u8; 32],
    s: [u8; 32],
    a: [u8; 20],
    res: Result<[u8; 20], Error>,
)
    requires
        is_valid_v(v),
        is_lower_half(s@),
        !is_zero_address(a@),
        forall|answer: Result<[u8; 20], OracleError>|
            call_ensures(oracle, (digest, v, r, s), answer) ==> answer == Ok::<
                [u8; 20],
                OracleError,
            >(a),
        is_recovery_by(oracle, digest, v, r, s, res),
    ensures
        res == Ok::<[u8; 20], Error>(a),
{
}

/// Two recoveries of the same signature by a service with at most one
/// answer to it give the same result: nothing else goes into it.
pub proof fn lemma_recovery_repeatable<F: FnOnce([u8; 32], u8, [u8; 32], [u8; 32]) -> Result<
    [u8; 20],
    OracleError,
>>(
    oracle: F,
    digest: [u8; 32],
    v: u8,
    r: [u8; 32],
    s: [u8; 32],
    first: Result<[u8; 20], Error>,
    second: Result<[u8; 20], Error>,
)
    requires
        answers_uniquely(oracle, digest, v, r, s),
        is_recovery_by(oracle, digest, v, r, s, first),
        is_recovery_by(oracle, digest, v, r, s, second),
    ensures
        first == second,
{
}

/// Of a signature `(v, r, s)` with `0 < s < n` and its twin `(v', r, n - s)`,
/// both valid for the same message and key, exactly one passes the checks.
pub proof fn lemma_one_of_twins_accepted(v: u8, s: Seq<u8>, twin_v: u8, twin_s: Seq<u8>)
    requires
        is_valid_v(v),
        is_valid_v(twin_v),
        0 < be_value(s) < secp256k1_n(),
        be_value(twin_s) == secp256k1_n() - be_value(s),
    ensures
        precheck(v, s) is Ok != precheck(twin_v, twin_s) is Ok,
{
    assert(secp256k1_n() == 2 * (secp256k1_n() / 2) + 1);
}

} // verus!
