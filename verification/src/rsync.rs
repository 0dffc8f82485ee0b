//! The delta engine boundary: rolling-checksum signatures, deltas and patch
//! application, performed by librsync over in-memory byte buffers.

use vstd::prelude::*;

use std::io::Cursor;

verus! {

/// A rolling-checksum summary of a file, in librsync's signature format.
pub type Signature = Vec<u8>;

/// The byte sequence that, applied to the signed file, reconstructs a new
/// file, in librsync's delta format.
pub type Delta = Vec<u8>;

/// Something the delta engine refused: bad magic, exhausted memory, or an
/// internal failure of the engine.
#[derive(Clone, Copy, Debug, PartialEq, Eq, Structural)]
pub enum RsyncError {
    Engine,
}

/// A name for what librsync's signature computation returns: the signature
/// bytes of a file's content, a function of that content alone.
pub uninterp spec fn sig_of(data: Seq<u8>) -> Seq<u8>;

/// A name for what librsync's delta computation returns: the delta bytes
/// leading from the signed content to the new content when the engine
/// accepts the signature, and nothing when it refuses it; over in-memory
/// buffers both the outcome and the bytes are a function of the two
/// arguments alone.
pub uninterp spec fn delta_res(sig: Seq<u8>, new: Seq<u8>) -> Option<Seq<u8>>;

/// A name for whether librsync's patch application accepts a base and a
/// delta; over in-memory buffers the outcome is a function of the two
/// arguments alone.
pub uninterp spec fn patch_ok(base: Seq<u8>, delta: Seq<u8>) -> bool;

/// Relies on librsync's `whole::signature` with its default options: the
/// result depends on the input bytes alone.
#[verifier::external_body]
pub fn get_signature(data: &[u8]) -> (r: Result<Signature, RsyncError>)
    ensures
        r matches Ok(sig) ==> sig@ == sig_of(data@),
{
    let mut out = Vec::new();
    match librsync::whole::signature(&mut Cursor::new(data), &mut out) {
        Ok(_) => Ok(out),
        Err(_) => Err(RsyncError::Engine),
    }
}

/// Relies on librsync's `whole::delta` over in-memory buffers: whether the
/// call succeeds, and which bytes it produces, depend on the new content and
/// the base signature alone.
#[verifier::external_body]
pub fn get_delta(data: &[u8], sig: &Signature) -> (r: Result<Delta, RsyncError>)
    ensures
        (r is Ok) == (delta_res(sig@, data@) is Some),
        r matches Ok(d) ==> Some(d@) == delta_res(sig@, data@),
{
    let mut out = Vec::new();
    match librsync::whole::delta(&mut Cursor::new(data), &mut Cursor::new(sig.as_slice()), &mut out)
    {
        Ok(_) => Ok(out),
        Err(_) => Err(RsyncError::Engine),
    }
}

/// Relies on librsync's `whole::patch` over in-memory buffers, whose
/// documented purpose is to rebuild the new file from the base file and a
/// delta computed against the base's signature: whether the call succeeds
/// depends on the base and delta alone, and when the delta led from `base`'s
/// signature to some content, the result is that content.
#[verifier::external_body]
pub fn apply_delta(base: &[u8], delta: &Delta) -> (r: Result<Vec<u8>, RsyncError>)
    ensures
        (r is Ok) == patch_ok(base@, delta@),
        r matches Ok(out) ==> forall|new: Seq<u8>|
            delta_res(sig_of(base@), new) == Some(delta@) ==> out@ == new,
{
    let mut out = Vec::new();
    match librsync::whole::patch(
        &mut Cursor::new(base),
        &mut Cursor::new(delta.as_slice()),
        &mut out,
    ) {
        Ok(_) => Ok(out),
        Err(_) => Err(RsyncError::Engine),
    }
}

/// Whether two signatures hold exactly the same bytes.
pub fn signatures_match(sig1: &Signature, sig2: &Signature) -> (r: Result<bool, RsyncError>)
    ensures
        r matches Ok(b) && b == (sig1@ == sig2@),
{
    let mut matching: usize = 0;
    let mut i: usize = 0;
    let shorter: usize = if sig1.len() < sig2.len() {
        sig1.len()
    } else {
        sig2.len()
    };
    while i < shorter
        invariant
            0 <= i <= shorter,
            shorter <= sig1@.len(),
            shorter <= sig2@.len(),
            matching <= i,
            (matching == i) == (forall|p: int| 0 <= p < i ==> sig1@[p] == sig2@[p]),
        decreases shorter - i,
    {
        if sig1[i] == sig2[i] {
            if matching == i {
                matching += 1;
            }
        }
        i += 1;
    }
    let r = matching == sig1.len() && matching == sig2.len();
    proof {
        if r {
            assert(sig1@ =~= sig2@);
        }
        if sig1@ =~= sig2@ {
            assert(shorter == sig1@.len());
        }
    }
    Ok(r)
}

} // verus!
