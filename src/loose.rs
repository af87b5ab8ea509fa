use std::io::Read;
use vstd::prelude::*;

use crate::error::RemoteGitHackDumpError;

verus! {

#[verifier::external_type_specification]
#[verifier::external_body]
pub struct ExIoError(std::io::Error);

/// What zlib inflation of `raw` yields, or `None` where `raw` does not begin
/// with a complete, uncorrupted zlib stream.
pub uninterp spec fn zlib_inflated(raw: Seq<u8>) -> Option<Seq<u8>>;

/// Relies on flate2's `ZlibDecoder` read to the end over an in-memory slice:
/// the bytes it yields depend on `raw` alone, and it fails exactly where the
/// stream is corrupt or ends early.
#[verifier::external_body]
fn zlib_inflate(raw: &[u8]) -> (r: Result<Vec<u8>, std::io::Error>)
    ensures
        r is Ok ==> zlib_inflated(raw@) == Some(r->Ok_0@),
        r is Err ==> zlib_inflated(raw@) is None,
{
    let mut decoder = flate2::read::ZlibDecoder::new(raw);
    let mut buffer: Vec<u8> = Vec::new();
    match decoder.read_to_end(&mut buffer) {
        Ok(_) => Ok(buffer),
        Err(e) => Err(e),
    }
}

/// `i` is the position of the first zero byte of `b`.
pub open spec fn is_first_zero(b: Seq<u8>, i: int) -> bool {
    0 <= i < b.len() && b[i] == 0 && forall|j: int| 0 <= j < i ==> b[j] != 0
}

/// The payload of an inflated loose object: what follows the first zero
/// byte, which ends the `<type> <length>` header. `None` where there is no
/// zero byte.
pub open spec fn loose_payload(b: Seq<u8>) -> Option<Seq<u8>> {
    if exists|i: int| is_first_zero(b, i) {
        let i = choose|i: int| is_first_zero(b, i);
        Some(b.subrange(i + 1, b.len() as int))
    } else {
        None
    }
}

/// What decoding the raw bytes of a loose object gives.
pub open spec fn decoded_object(raw: Seq<u8>) -> Result<Seq<u8>, RemoteGitHackDumpError> {
    match zlib_inflated(raw) {
        None => Err(RemoteGitHackDumpError::DecompressError),
        Some(b) => match loose_payload(b) {
            Some(p) => Ok(p),
            None => Err(RemoteGitHackDumpError::HandleDecodedObjectError),
        },
    }
}

/// The view of a result that holds bytes.
pub open spec fn bytes_result_view(r: Result<Vec<u8>, RemoteGitHackDumpError>) -> Result<
    Seq<u8>,
    RemoteGitHackDumpError,
> {
    match r {
        Ok(v) => Ok(v@),
        Err(e) => Err(e),
    }
}

proof fn lemma_first_zero_unique(b: Seq<u8>, i: int, k: int)
    requires
        is_first_zero(b, i),
        is_first_zero(b, k),
    ensures
        i == k,
{
}

/// Removes the `<type> <length>\0` header of an inflated loose object.
pub fn strip_object_header(buffer: &Vec<u8>) -> (r: Result<Vec<u8>, RemoteGitHackDumpError>)
    ensures
        match loose_payload(buffer@) {
            Some(p) => r is Ok && r->Ok_0@ == p,
            None => r == Err::<Vec<u8>, RemoteGitHackDumpError>(
                RemoteGitHackDumpError::HandleDecodedObjectError,
            ),
        },
{
    let n = buffer.len();
    let mut i: usize = 0;
    while i < n
        invariant
            n == buffer@.len(),
            i <= n,
            forall|j: int| 0 <= j < i ==> buffer@[j] != 0,
        decreases n - i,
    {
        if buffer[i] == 0 {
            let mut out: Vec<u8> = Vec::new();
            let mut k: usize = i + 1;
            while k < n
                invariant
                    n == buffer@.len(),
                    i < k <= n,
                    out@ == buffer@.subrange(i + 1, k as int),
                decreases n - k,
            {
                out.push(buffer[k]);
                k = k + 1;
                proof {
                    assert(out@ =~= buffer@.subrange(i + 1, k as int));
                }
            }
            proof {
                assert(is_first_zero(buffer@, i as int));
                let c = choose|c: int| is_first_zero(buffer@, c);
                lemma_first_zero_unique(buffer@, i as int, c);
            }
            return Ok(out);
        }
        i = i + 1;
    }
    Err(RemoteGitHackDumpError::HandleDecodedObjectError)
}

/// Decodes the raw bytes of a loose object as served by the remote store:
/// inflates them and removes the header, giving the object's payload.
pub fn read_object_from_bytes(object_bytes: &[u8]) -> (r: Result<Vec<u8>, RemoteGitHackDumpError>)
    ensures
        bytes_result_view(r) == decoded_object(object_bytes@),
{
    match zlib_inflate(object_bytes) {
        Ok(buffer) => strip_object_header(&buffer),
        Err(_) => Err(RemoteGitHackDumpError::DecompressError),
    }
}

/// The decimal digits of `n`, most significant first, as ASCII bytes.
pub open spec fn decimal(n: nat) -> Seq<u8>
    decreases n,
{
    if n < 10 {
        seq![(48 + n) as u8]
    } else {
        decimal(n / 10).push((48 + n % 10) as u8)
    }
}

/// The uncompressed form of a loose object: `<type> <length>\0<payload>`.
pub open spec fn loose_frame(kind: Seq<u8>, payload: Seq<u8>) -> Seq<u8> {
    kind + seq![32u8] + decimal(payload.len()) + seq![0u8] + payload
}

proof fn lemma_decimal_has_no_zero(n: nat)
    ensures
        forall|i: int| 0 <= i < decimal(n).len() ==> decimal(n)[i] != 0,
    decreases n,
{
    if n >= 10 {
        lemma_decimal_has_no_zero(n / 10);
        let last = (48 + n % 10) as u8;
        assert(48 <= 48 + n % 10 < 58);
        assert(last != 0);
        assert(decimal(n) == decimal(n / 10).push(last));
    } else {
        assert(48 <= 48 + n < 58);
    }
}

/// Decoding is a left inverse of encoding: the payload of the frame built
/// from a type tag without zero bytes and a payload is that payload, and raw
/// bytes that inflate to such a frame decode to the payload.
pub proof fn lemma_decode_inverts_frame(raw: Seq<u8>, kind: Seq<u8>, payload: Seq<u8>)
    requires
        forall|i: int| 0 <= i < kind.len() ==> kind[i] != 0,
    ensures
        loose_payload(loose_frame(kind, payload)) == Some(payload),
        zlib_inflated(raw) == Some(loose_frame(kind, payload)) ==> decoded_object(raw) == Ok::<
            Seq<u8>,
            RemoteGitHackDumpError,
        >(payload),
{
    let f = loose_frame(kind, payload);
    let d = decimal(payload.len());
    lemma_decimal_has_no_zero(payload.len());
    let z: int = kind.len() as int + 1 + d.len() as int;
    assert forall|j: int| 0 <= j < z implies f[j] != 0 by {
        if j < kind.len() {
            assert(f[j] == kind[j]);
        } else if j == kind.len() {
            assert(f[j] == 32u8);
        } else {
            assert(f[j] == d[j - kind.len() - 1]);
        }
    }
    assert(f[z] == 0);
    assert(is_first_zero(f, z));
    let c = choose|c: int| is_first_zero(f, c);
    lemma_first_zero_unique(f, z, c);
    assert(f.subrange(z + 1, f.len() as int) =~= payload);
}

} // verus!
