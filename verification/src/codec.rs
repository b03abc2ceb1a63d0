//! Framing of a collab snapshot as one opaque blob.
//!
//! A stored blob is one version byte (1 or 2), the state vector prefixed
//! by its little-endian 32-bit length, then the document state prefixed
//! the same way. Decoding rejects anything else: an unknown version byte,
//! a truncated payload, or trailing bytes.

use crate::entity::{EncodedCollab, EncoderVersion};
use vstd::bytes::{spec_u32_from_le_bytes, spec_u32_to_le_bytes, u32_from_le_bytes, u32_to_le_bytes};
use vstd::prelude::*;
use vstd::slice::{slice_subrange, slice_to_vec};

verus! {

/// The byte that opens a blob of the given version.
pub open spec fn spec_version_byte(v: EncoderVersion) -> u8 {
    match v {
        EncoderVersion::V1 => 1,
        EncoderVersion::V2 => 2,
    }
}

/// The blob that encodes a snapshot with the given parts.
pub open spec fn spec_encode(sv: Seq<u8>, ds: Seq<u8>, v: EncoderVersion) -> Seq<u8>
    recommends
        sv.len() <= u32::MAX,
        ds.len() <= u32::MAX,
{
    seq![spec_version_byte(v)] + spec_u32_to_le_bytes(sv.len() as u32) + sv
        + spec_u32_to_le_bytes(ds.len() as u32) + ds
}

/// What a blob decodes to: the state vector, the document state and the
/// version, or nothing when the blob is malformed.
pub open spec fn spec_decode(b: Seq<u8>) -> Option<(Seq<u8>, Seq<u8>, EncoderVersion)> {
    if b.len() < 9 {
        None
    } else if b[0] != 1 && b[0] != 2 {
        None
    } else {
        let v = if b[0] == 1 {
            EncoderVersion::V1
        } else {
            EncoderVersion::V2
        };
        let sv_len = spec_u32_from_le_bytes(b.subrange(1, 5)) as int;
        if b.len() < 9 + sv_len {
            None
        } else {
            let ds_len = spec_u32_from_le_bytes(b.subrange(5 + sv_len, 9 + sv_len)) as int;
            if b.len() != 9 + sv_len + ds_len {
                None
            } else {
                Some(
                    (
                        b.subrange(5, 5 + sv_len),
                        b.subrange(9 + sv_len, 9 + sv_len + ds_len),
                        v,
                    ),
                )
            }
        }
    }
}

/// Decoding inverts encoding: every snapshot comes back from its own blob
/// unchanged.
pub proof fn lemma_codec_round_trip(sv: Seq<u8>, ds: Seq<u8>, v: EncoderVersion)
    ensures
        sv.len() <= u32::MAX && ds.len() <= u32::MAX ==> spec_decode(spec_encode(sv, ds, v))
            == Some((sv, ds, v)),
{
    if sv.len() <= u32::MAX && ds.len() <= u32::MAX {
        vstd::bytes::lemma_auto_spec_u32_to_from_le_bytes();
        let b = spec_encode(sv, ds, v);
        let n = sv.len() as int;
        let m = ds.len() as int;
        assert(b.len() == 9 + n + m);
        assert(b[0] == spec_version_byte(v));
        assert(b.subrange(1, 5) =~= spec_u32_to_le_bytes(sv.len() as u32));
        assert(spec_u32_from_le_bytes(b.subrange(1, 5)) == sv.len() as u32);
        assert(b.subrange(5 + n, 9 + n) =~= spec_u32_to_le_bytes(ds.len() as u32));
        assert(b.subrange(5, 5 + n) =~= sv);
        assert(b.subrange(9 + n, 9 + n + m) =~= ds);
    }
}

/// Encodes a snapshot into the blob the row store keeps.
pub fn encode_collab(ec: &EncodedCollab) -> (r: Vec<u8>)
    requires
        ec.state_vector@.len() <= u32::MAX,
        ec.doc_state@.len() <= u32::MAX,
    ensures
        r@ == spec_encode(ec.state_vector@, ec.doc_state@, ec.version),
{
    let mut out: Vec<u8> = Vec::new();
    let vb: u8 = match ec.version {
        EncoderVersion::V1 => 1,
        EncoderVersion::V2 => 2,
    };
    out.push(vb);
    let mut sv_len = u32_to_le_bytes(ec.state_vector.len() as u32);
    out.append(&mut sv_len);
    let mut sv = slice_to_vec(ec.state_vector.as_slice());
    out.append(&mut sv);
    let mut ds_len = u32_to_le_bytes(ec.doc_state.len() as u32);
    out.append(&mut ds_len);
    let mut ds = slice_to_vec(ec.doc_state.as_slice());
    out.append(&mut ds);
    proof {
        assert(out@ =~= spec_encode(ec.state_vector@, ec.doc_state@, ec.version));
    }
    out
}

/// Decodes a stored blob back into a snapshot; `None` means the blob is
/// malformed and the caller reports a decode failure.
pub fn decode_collab(bytes: &Vec<u8>) -> (r: Option<EncodedCollab>)
    ensures
        match r {
            Some(ec) => spec_decode(bytes@) == Some(
                (ec.state_vector@, ec.doc_state@, ec.version),
            ),
            None => spec_decode(bytes@) is None,
        },
{
    let len = bytes.len();
    if len < 9 {
        return None;
    }
    let vb = bytes[0];
    if vb != 1 && vb != 2 {
        return None;
    }
    let version = if vb == 1 {
        EncoderVersion::V1
    } else {
        EncoderVersion::V2
    };
    let sv_len = u32_from_le_bytes(slice_subrange(bytes.as_slice(), 1, 5)) as usize;
    if len - 9 < sv_len {
        return None;
    }
    let ds_len = u32_from_le_bytes(slice_subrange(bytes.as_slice(), 5 + sv_len, 9 + sv_len))
        as usize;
    if len - 9 - sv_len != ds_len {
        return None;
    }
    let state_vector = slice_to_vec(slice_subrange(bytes.as_slice(), 5, 5 + sv_len));
    let doc_state = slice_to_vec(slice_subrange(bytes.as_slice(), 9 + sv_len, 9 + sv_len + ds_len));
    Some(EncodedCollab { state_vector, doc_state, version })
}

} // verus!
