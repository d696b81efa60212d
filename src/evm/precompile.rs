//! The client side of the signer-recovery service: what is sent to it and how
//! its answer is read.
use vstd::prelude::*;

verus! {

/// Why the recovery service produced no address.
#[derive(Debug, Clone, Copy, PartialEq, Eq, Structural)]
pub enum OracleError {
    /// The call failed, or its answer was too short to hold an address.
    CallFailed,
}

/// The bytes a recovery precompile takes: the digest, `v` widened to a
/// 32-byte big-endian word, then `r` and `s`.
pub open spec fn precompile_input(digest: Seq<u8>, v: u8, r: Seq<u8>, s: Seq<u8>) -> Seq<u8> {
    digest + Seq::new(31, |i: int| 0u8) + seq![v] + r + s
}

/// The address that a precompile answer carries: its last 20 bytes, when it
/// has that many.
pub open spec fn precompile_answer(answer: Option<Seq<u8>>) -> Result<Seq<u8>, OracleError> {
    match answer {
        Some(b) => if b.len() >= 20 {
            Ok(b.subrange(b.len() - 20, b.len() as int))
        } else {
            Err(OracleError::CallFailed)
        },
        None => Err(OracleError::CallFailed),
    }
}

fn push_all(out: &mut Vec<u8>, w: &[u8; 32])
    ensures
        final(out)@ == old(out)@ + w@,
{
    let mut i: usize = 0;
    while i < 32
        invariant
            i <= 32,
            out@ == old(out)@ + w@.subrange(0, i as int),
        decreases 32 - i,
    {
        out.push(w[i]);
        i += 1;
        assert(out@ =~= old(out)@ + w@.subrange(0, i as int));
    }
    assert(w@.subrange(0, 32) =~= w@);
}

/// Lays out `(digest, v, r, s)` as the 128 bytes a recovery precompile takes.
pub fn encode_input(digest: &[u8; 32], v: u8, r: &[u8; 32], s: &[u8; 32]) -> (out: Vec<u8>)
    ensures
        out@ == precompile_input(digest@, v, r@, s@),
        out@.len() == 128,
{
    let mut out: Vec<u8> = Vec::new();
    push_all(&mut out, digest);
    let mut i: usize = 0;
    while i < 31
        invariant
            i <= 31,
            out@ == digest@ + Seq::new(i as nat, |j: int| 0u8),
        decreases 31 - i,
    {
        out.push(0u8);
        i += 1;
        assert(out@ =~= digest@ + Seq::new(i as nat, |j: int| 0u8));
    }
    out.push(v);
    push_all(&mut out, r);
    push_all(&mut out, s);
    out
}

/// Reads the recovered address out of a precompile answer; `None` stands for
/// a call that failed.
pub fn decode_answer(answer: Option<&[u8]>) -> (res: Result<[u8; 20], OracleError>)
    ensures
        match answer {
            Some(b) => match precompile_answer(Some(b@)) {
                Ok(a) => res is Ok && res->Ok_0@ == a,
                Err(e) => res == Err::<[u8; 20], OracleError>(e),
            },
            None => res == Err::<[u8; 20], OracleError>(OracleError::CallFailed),
        },
{
    match answer {
        None => Err(OracleError::CallFailed),
        Some(b) => {
            let n: usize = b.len();
            if n < 20 {
                Err(OracleError::CallFailed)
            } else {
                let start: usize = n - 20;
                let mut a: [u8; 20] = [0u8; 20];
                let mut i: usize = 0;
                while i < 20
                    invariant
                        i <= 20,
                        start + 20 == n,
                        n == b@.len(),
                        forall|j: int| 0 <= j < i ==> a@[j] == b@[start + j],
                    decreases 20 - i,
                {
                    a[i] = b[start + i];
                    i += 1;
                }
                assert(a@ =~= b@.subrange(start as int, b@.len() as int));
                Ok(a)
            }
        },
    }
}

} // verus!
