//! The canonical encoding of a payload: the exact bytes that are signed and
//! that the verifier recomputes.
//!
//! It is a compact JSON object whose members are the payload's fields in a
//! fixed order, an optional field being left out where it is unset. Equal
//! payloads have equal encodings, and different payloads different ones.

use crate::json::{
    json_members, json_object, lemma_members_push, lemma_object_injective, write_json_member,
};
use crate::payload::{Payload, PayloadView};
use vstd::prelude::*;

verus! {

/// The member that an optional field contributes: one where it is set, none
/// where it is not.
pub open spec fn optional_member(key: Seq<char>, value: Option<Seq<char>>) -> Seq<
    (Seq<char>, Seq<char>),
> {
    match value {
        Some(v) => seq![(key, v)],
        None => seq![],
    }
}

/// The members of the canonical object, in their order.
pub open spec fn payload_members(p: PayloadView) -> Seq<(Seq<char>, Seq<char>)> {
    seq![
        ("commit"@, p.commit),
        ("flake_lock_hash"@, p.flake_lock_hash),
        ("build_command"@, p.build_command),
        ("artifact_tar_hash"@, p.artifact_tar_hash),
    ] + optional_member("drv_hash"@, p.drv_hash) + optional_member(
        "build_log_hash"@,
        p.build_log_hash,
    ) + seq![("timestamp"@, p.timestamp), ("nonce"@, p.nonce)]
}

/// The canonical encoding of a payload.
pub open spec fn canonical_encoding(p: PayloadView) -> Seq<u8> {
    json_object(payload_members(p))
}

/// Appends one member to an object under construction.
fn write_field(
    out: &mut Vec<u8>,
    Ghost(before): Ghost<Seq<(Seq<char>, Seq<char>)>>,
    first: bool,
    key: &str,
    value: &str,
)
    requires
        old(out)@ == seq![0x7bu8] + json_members(before),
        first == (before.len() == 0),
    ensures
        final(out)@ == seq![0x7bu8] + json_members(before.push((key@, value@))),
{
    proof {
        lemma_members_push(before, (key@, value@));
    }
    write_json_member(out, first, key, value);
    assert(final(out)@ =~= seq![0x7bu8] + json_members(before.push((key@, value@))));
}

/// Encodes a payload canonically.
pub fn canonical_bytes(payload: &Payload) -> (out: Vec<u8>)
    ensures
        out@ == canonical_encoding(payload@),
{
    let ghost p = payload@;
    let mut out: Vec<u8> = Vec::new();
    out.push(0x7b);
    let ghost m0: Seq<(Seq<char>, Seq<char>)> = Seq::empty();
    assert(out@ =~= seq![0x7bu8] + json_members(m0));
    write_field(&mut out, Ghost(m0), true, "commit", payload.commit());
    let ghost m1 = m0.push(("commit"@, p.commit));
    write_field(&mut out, Ghost(m1), false, "flake_lock_hash", payload.flake_lock_hash());
    let ghost m2 = m1.push(("flake_lock_hash"@, p.flake_lock_hash));
    write_field(&mut out, Ghost(m2), false, "build_command", payload.build_command());
    let ghost m3 = m2.push(("build_command"@, p.build_command));
    write_field(&mut out, Ghost(m3), false, "artifact_tar_hash", payload.artifact_tar_hash());
    let ghost m4 = m3.push(("artifact_tar_hash"@, p.artifact_tar_hash));
    let ghost mut m5 = m4;
    match payload.drv_hash() {
        Some(hash) => {
            write_field(&mut out, Ghost(m4), false, "drv_hash", hash);
            proof {
                m5 = m4.push(("drv_hash"@, hash@));
            }
        },
        None => {},
    }
    assert(m5 =~= m4 + optional_member("drv_hash"@, p.drv_hash));
    let ghost mut m6 = m5;
    match payload.build_log_hash() {
        Some(hash) => {
            write_field(&mut out, Ghost(m5), false, "build_log_hash", hash);
            proof {
                m6 = m5.push(("build_log_hash"@, hash@));
            }
        },
        None => {},
    }
    assert(m6 =~= m5 + optional_member("build_log_hash"@, p.build_log_hash));
    write_field(&mut out, Ghost(m6), false, "timestamp", payload.timestamp());
    let ghost m7 = m6.push(("timestamp"@, p.timestamp));
    write_field(&mut out, Ghost(m7), false, "nonce", payload.nonce());
    let ghost m8 = m7.push(("nonce"@, p.nonce));
    out.push(0x7d);
    assert(m8 =~= payload_members(p));
    out
}

/// The members name their fields: two payloads with the same members are
/// the same payload. An unset optional field cannot be taken for a set one,
/// nor one optional field for the other, because the keys differ.
pub proof fn lemma_members_determine_payload(p: PayloadView, q: PayloadView)
    requires
        payload_members(p) == payload_members(q),
    ensures
        p == q,
{
    reveal_strlit("drv_hash");
    reveal_strlit("build_log_hash");
    reveal_strlit("timestamp");
    let head = seq![
        ("commit"@, p.commit),
        ("flake_lock_hash"@, p.flake_lock_hash),
        ("build_command"@, p.build_command),
        ("artifact_tar_hash"@, p.artifact_tar_hash),
    ];
    let pd = optional_member("drv_hash"@, p.drv_hash);
    let pl = optional_member("build_log_hash"@, p.build_log_hash);
    let qd = optional_member("drv_hash"@, q.drv_hash);
    let ql = optional_member("build_log_hash"@, q.build_log_hash);
    let pm = payload_members(p);
    let qm = payload_members(q);
    assert(pm.len() == 6 + pd.len() + pl.len());
    assert(qm.len() == 6 + qd.len() + ql.len());
    assert(pm[0] == qm[0] && pm[1] == qm[1] && pm[2] == qm[2] && pm[3] == qm[3]);
    assert(pm[0].1 == p.commit && qm[0].1 == q.commit);
    assert(pm[1].1 == p.flake_lock_hash && qm[1].1 == q.flake_lock_hash);
    assert(pm[2].1 == p.build_command && qm[2].1 == q.build_command);
    assert(pm[3].1 == p.artifact_tar_hash && qm[3].1 == q.artifact_tar_hash);
    // the member after the four required ones tells which optional fields are set
    assert(pm[4] == qm[4]);
    assert(pm[4].0 == (if p.drv_hash is Some {
        "drv_hash"@
    } else if p.build_log_hash is Some {
        "build_log_hash"@
    } else {
        "timestamp"@
    }));
    assert(qm[4].0 == (if q.drv_hash is Some {
        "drv_hash"@
    } else if q.build_log_hash is Some {
        "build_log_hash"@
    } else {
        "timestamp"@
    }));
    assert(p.drv_hash is Some <==> q.drv_hash is Some);
    if p.drv_hash is Some {
        assert(pm[4].1 == p.drv_hash->0 && qm[4].1 == q.drv_hash->0);
    }
    assert(p.drv_hash == q.drv_hash);
    let k = 4 + pd.len() as int;
    assert(pm[k] == qm[k]);
    assert(pm[k].0 == (if p.build_log_hash is Some {
        "build_log_hash"@
    } else {
        "timestamp"@
    }));
    assert(qm[k].0 == (if q.build_log_hash is Some {
        "build_log_hash"@
    } else {
        "timestamp"@
    }));
    assert(p.build_log_hash is Some <==> q.build_log_hash is Some);
    if p.build_log_hash is Some {
        assert(pm[k].1 == p.build_log_hash->0 && qm[k].1 == q.build_log_hash->0);
    }
    assert(p.build_log_hash == q.build_log_hash);
    let t = k + pl.len() as int;
    assert(pm[t] == qm[t] && pm[t + 1] == qm[t + 1]);
    assert(pm[t].1 == p.timestamp && qm[t].1 == q.timestamp);
    assert(pm[t + 1].1 == p.nonce && qm[t + 1].1 == q.nonce);
}

/// The canonical encoding is faithful: two payloads have the same encoding
/// exactly when every field of one equals that field of the other, an unset
/// optional field being equal only to an unset one.
pub proof fn lemma_canonical_encoding_faithful(p: PayloadView, q: PayloadView)
    ensures
        canonical_encoding(p) == canonical_encoding(q) <==> p == q,
{
    if canonical_encoding(p) == canonical_encoding(q) {
        lemma_object_injective(payload_members(p), payload_members(q));
        lemma_members_determine_payload(p, q);
    }
}

/// Two payloads with different nonces have different encodings, whatever
/// their other fields are.
pub proof fn lemma_nonce_changes_encoding(p: PayloadView, q: PayloadView)
    requires
        p.nonce != q.nonce,
    ensures
        canonical_encoding(p) != canonical_encoding(q),
{
    lemma_canonical_encoding_faithful(p, q);
}

} // verus!
