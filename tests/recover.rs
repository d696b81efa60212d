use stylus_ecdsa::evm::ecdsa::{accept_recovered, check_signature, is_zero, Error, ECDSA};
use stylus_ecdsa::evm::precompile::{decode_answer, encode_input, OracleError};
use stylus_ecdsa::evm::word::is_lower_half_order;
use stylus_ecdsa::Playground;

const DIGEST: &str = "a1de988600a42c4b4ab089b619297c17d53cffae5d5120d82d8a92d0bb3b78f2";
const R: &str = "65e72b1cf8e189569963750e10ccb88fe89389daeeb8b735277d59cd6885ee82";
const S: &str = "3eb5a6982b540f185703492dab77b863a88ce01f27e21ade8b2879c10fc9e653";
const SIGNER: &str = "1234567890abcdef1234567890abcdef12345678";
const ORDER: &str = "fffffffffffffffffffffffffffffffebaaedce6af48a03bbfd25e8cd0364141";
const HALF_ORDER: &str = "7fffffffffffffffffffffffffffffff5d576e7357a4501ddfe92f46681b20a0";

fn word(h: &str) -> [u8; 32] {
    hex::decode(h).unwrap().try_into().unwrap()
}

fn address(h: &str) -> [u8; 20] {
    hex::decode(h).unwrap().try_into().unwrap()
}

/// `a - b` on big-endian words, for `a >= b`.
fn sub_words(a: &[u8; 32], b: &[u8; 32]) -> [u8; 32] {
    let mut out = [0u8; 32];
    let mut borrow = 0i32;
    for i in (0..32).rev() {
        let mut d = a[i] as i32 - b[i] as i32 - borrow;
        borrow = 0;
        if d < 0 {
            d += 256;
            borrow = 1;
        }
        out[i] = d as u8;
    }
    assert_eq!(borrow, 0);
    out
}

fn one() -> [u8; 32] {
    let mut w = [0u8; 32];
    w[31] = 1;
    w
}

type Request = ([u8; 32], u8, [u8; 32], [u8; 32]);

/// Runs a recovery against a service that answers every request with
/// `answer`; returns the result and the requests the service received.
fn recover_with(
    answer: Result<[u8; 20], OracleError>,
    digest: &[u8; 32],
    v: u8,
    r: &[u8; 32],
    s: &[u8; 32],
) -> (Result<[u8; 20], Error>, Vec<Request>) {
    let mut seen: Vec<Request> = Vec::new();
    let res = ECDSA {}.recover(
        |d, v, r, s| {
            seen.push((d, v, r, s));
            answer
        },
        digest,
        v,
        r,
        s,
    );
    (res, seen)
}

#[test]
fn recovers_the_signer_the_service_derives() {
    let (res, seen) = recover_with(Ok(address(SIGNER)), &word(DIGEST), 28, &word(R), &word(S));
    assert_eq!(res, Ok(address(SIGNER)));
    assert_eq!(seen, vec![(word(DIGEST), 28, word(R), word(S))]);
}

#[test]
fn v_of_29_is_refused_without_asking() {
    let (res, seen) = recover_with(Ok(address(SIGNER)), &word(DIGEST), 29, &word(R), &word(S));
    assert_eq!(res, Err(Error::InvalidSignatureV));
    assert!(seen.is_empty());
}

#[test]
fn every_v_but_27_and_28_is_refused() {
    for v in 0..=255u8 {
        let (res, seen) = recover_with(Ok(address(SIGNER)), &word(DIGEST), v, &word(R), &word(S));
        if v == 27 || v == 28 {
            assert_eq!(res, Ok(address(SIGNER)));
            assert_eq!(seen, vec![(word(DIGEST), v, word(R), word(S))]);
        } else {
            assert_eq!(res, Err(Error::InvalidSignatureV));
            assert!(seen.is_empty());
        }
    }
}

#[test]
fn s_of_order_minus_one_is_refused_without_asking() {
    let s = sub_words(&word(ORDER), &one());
    let (res, seen) = recover_with(Ok(address(SIGNER)), &word(DIGEST), 28, &word(R), &s);
    assert_eq!(res, Err(Error::InvalidSignatureS));
    assert!(seen.is_empty());
}

#[test]
fn bad_v_is_reported_before_high_s() {
    let s = sub_words(&word(ORDER), &one());
    let (res, seen) = recover_with(Ok(address(SIGNER)), &word(DIGEST), 0, &word(R), &s);
    assert_eq!(res, Err(Error::InvalidSignatureV));
    assert!(seen.is_empty());
}

#[test]
fn zero_address_is_refused() {
    let (res, seen) = recover_with(Ok([0u8; 20]), &word(DIGEST), 28, &word(R), &word(S));
    assert_eq!(res, Err(Error::InvalidSignature));
    assert_eq!(seen.len(), 1);
}

#[test]
fn service_failure_is_reported() {
    let (res, seen) = recover_with(Err(OracleError::CallFailed), &word(DIGEST), 27, &word(R), &word(S));
    assert_eq!(res, Err(Error::OracleUnavailable));
    assert_eq!(seen, vec![(word(DIGEST), 27, word(R), word(S))]);
}

#[test]
fn recovering_twice_gives_the_same_result() {
    let (first, first_seen) = recover_with(Ok(address(SIGNER)), &word(DIGEST), 28, &word(R), &word(S));
    let (second, second_seen) = recover_with(Ok(address(SIGNER)), &word(DIGEST), 28, &word(R), &word(S));
    assert_eq!(first, second);
    assert_eq!(first_seen, second_seen);
}

#[test]
fn exactly_one_of_twin_signatures_passes() {
    let s = word(S);
    let twin = sub_words(&word(ORDER), &s);
    assert_eq!(check_signature(28, &s), Ok(()));
    assert_eq!(check_signature(27, &twin), Err(Error::InvalidSignatureS));
    let low = sub_words(&word(ORDER), &twin);
    assert_eq!(low, s);
}

#[test]
fn half_order_is_the_largest_accepted_s() {
    let half = word(HALF_ORDER);
    assert!(is_lower_half_order(&half));
    let mut above = half;
    above[31] += 1;
    assert!(!is_lower_half_order(&above));
    assert!(!is_lower_half_order(&word(ORDER)));
    assert!(!is_lower_half_order(&[0xff; 32]));
    assert!(is_lower_half_order(&[0u8; 32]));
    assert!(is_lower_half_order(&sub_words(&half, &one())));
    let mut high_byte_only = [0u8; 32];
    high_byte_only[0] = 0x80;
    assert!(!is_lower_half_order(&high_byte_only));
    let mut low_half_max = half;
    low_half_max[16..].copy_from_slice(&[0xff; 16]);
    assert!(!is_lower_half_order(&low_half_max));
}

#[test]
fn check_signature_reports_each_error() {
    assert_eq!(check_signature(27, &word(S)), Ok(()));
    assert_eq!(check_signature(26, &word(S)), Err(Error::InvalidSignatureV));
    assert_eq!(check_signature(28, &word(ORDER)), Err(Error::InvalidSignatureS));
}

#[test]
fn zero_address_detection() {
    assert!(is_zero(&[0u8; 20]));
    let mut a = [0u8; 20];
    a[19] = 1;
    assert!(!is_zero(&a));
    a = [0u8; 20];
    a[0] = 1;
    assert!(!is_zero(&a));
}

#[test]
fn answers_are_classified() {
    assert_eq!(accept_recovered(Ok(address(SIGNER))), Ok(address(SIGNER)));
    assert_eq!(accept_recovered(Ok([0u8; 20])), Err(Error::InvalidSignature));
    assert_eq!(accept_recovered(Err(OracleError::CallFailed)), Err(Error::OracleUnavailable));
}

#[test]
fn input_is_laid_out_as_the_precompile_expects() {
    let input = encode_input(&word(DIGEST), 28, &word(R), &word(S));
    let expected = format!("{}{:064x}{}{}", DIGEST, 28, R, S);
    assert_eq!(input, hex::decode(expected).unwrap());
    assert_eq!(input.len(), 128);
}

#[test]
fn answer_is_read_from_its_last_twenty_bytes() {
    let mut padded = vec![0u8; 12];
    padded.extend_from_slice(&address(SIGNER));
    assert_eq!(decode_answer(Some(&padded)), Ok(address(SIGNER)));
    assert_eq!(decode_answer(Some(&address(SIGNER))), Ok(address(SIGNER)));
    assert_eq!(decode_answer(Some(&padded[..19])), Err(OracleError::CallFailed));
    assert_eq!(decode_answer(Some(&[])), Err(OracleError::CallFailed));
    assert_eq!(decode_answer(None), Err(OracleError::CallFailed));
}

#[test]
fn playground_probe_answers_zero() {
    let p = Playground { ecdsa: ECDSA {} };
    assert_eq!(p.test(), 0);
}
