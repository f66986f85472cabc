use vstd::prelude::*;
use crate::contract::{
    access_key_set, account_age_set, handle_conflict, registered, registration_outcome, scalar_outcome, user_or_empty,
    AttestError, ContractView, VALIDITY_WINDOW,
};
use crate::record::is_live;
use crate::signature::ed25519_accepts;
use crate::text::{registration_text, scalar_text};

verus! {

/// An identity that registered a handle never meets a handle conflict when it
/// registers the same handle on the same platform again, and, with the clock
/// not running backwards, the renewed attestation expires no earlier than
/// the first.
pub proof fn lemma_renewal_never_conflicts(
    s: ContractView,
    id: Seq<char>,
    platform: Seq<char>,
    handle: Seq<char>,
    proof1: Seq<char>,
    proof2: Seq<char>,
    now1: u64,
    now2: u64,
    height: u64,
    signature: Seq<u8>,
    deadline: u64,
)
    requires
        now1 <= now2,
        now2 <= u64::MAX - VALIDITY_WINDOW,
    ensures
        registration_outcome(
            registered(s, id, platform, handle, proof1, now1),
            id,
            height,
            now2,
            platform,
            signature,
            handle,
            proof2,
            deadline,
        ) != Err::<(), AttestError>(AttestError::HandleConflict),
        registered(registered(s, id, platform, handle, proof1, now1), id, platform, handle, proof2, now2).records[id].socials[platform].expiry_date
            >= registered(s, id, platform, handle, proof1, now1).records[id].socials[platform].expiry_date,
{
}

/// While the index points a handle at an identity that holds a live
/// attestation for it, no other identity can register that handle.
pub proof fn lemma_live_handle_blocks_others(
    s: ContractView,
    holder: Seq<char>,
    requester: Seq<char>,
    platform: Seq<char>,
    handle: Seq<char>,
    proof: Seq<char>,
    now: u64,
    height: u64,
    signature: Seq<u8>,
    deadline: u64,
)
    requires
        holder != requester,
        s.handles.contains_key((platform, handle)),
        s.handles[(platform, handle)] == holder,
        s.records.contains_key(holder),
        s.records[holder].socials.contains_key(platform),
        s.records[holder].socials[platform].handle == handle,
        is_live(s.records[holder].socials[platform], now),
    ensures
        registration_outcome(s, requester, height, now, platform, signature, handle, proof, deadline)
            is Err,
{
}

/// A request whose deadline height has been reached is refused as expired,
/// whatever its signature.
pub proof fn lemma_deadline_enforced(
    s: ContractView,
    signer: Seq<char>,
    height: u64,
    now: u64,
    platform: Seq<char>,
    signature: Seq<u8>,
    handle: Seq<char>,
    proof: Seq<char>,
    value: nat,
    deadline: u64,
)
    requires
        deadline <= height,
    ensures
        registration_outcome(s, signer, height, now, platform, signature, handle, proof, deadline)
            == Err::<(), AttestError>(AttestError::ExpiredRequest),
        scalar_outcome(s, signer, height, signature, value, deadline) == Err::<(), AttestError>(
            AttestError::ExpiredRequest,
        ),
{
}

/// A request is accepted only with a signature that Ed25519 accepts under
/// the authority key over the canonical message of exactly the submitted
/// fields.
pub proof fn lemma_signature_binds_fields(
    s: ContractView,
    signer: Seq<char>,
    height: u64,
    now: u64,
    platform: Seq<char>,
    signature: Seq<u8>,
    handle: Seq<char>,
    proof: Seq<char>,
    value: nat,
    deadline: u64,
)
    ensures
        registration_outcome(s, signer, height, now, platform, signature, handle, proof, deadline)
            is Ok ==> ed25519_accepts(
            s.admin_pub,
            registration_text(signer, platform, handle, proof, deadline as nat),
            signature,
        ),
        scalar_outcome(s, signer, height, signature, value, deadline) is Ok ==> ed25519_accepts(
            s.admin_pub,
            scalar_text(signer, value, deadline as nat),
            signature,
        ),
{
}

/// A scalar update that was accepted is accepted again, on any store with
/// the same authority key, for as long as its deadline has not been reached:
/// there is no nonce besides the deadline.
pub proof fn lemma_scalar_replay_accepted(
    s1: ContractView,
    s2: ContractView,
    signer: Seq<char>,
    height1: u64,
    height2: u64,
    signature: Seq<u8>,
    value: nat,
    deadline: u64,
)
    requires
        scalar_outcome(s1, signer, height1, signature, value, deadline) is Ok,
        s2.admin_pub == s1.admin_pub,
        height2 < deadline,
    ensures
        scalar_outcome(s2, signer, height2, signature, value, deadline) is Ok,
{
}

/// Setting the access-key count leaves the account age, the attestations,
/// the handle index and every other identity's record as they were; setting
/// the account age leaves the access-key count, the attestations, the index
/// and the other records as they were.
pub proof fn lemma_field_isolation(s: ContractView, id: Seq<char>, count: u32, age: u128)
    ensures
        access_key_set(s, id, count).records[id].account_age == user_or_empty(s, id).account_age,
        access_key_set(s, id, count).records[id].socials == user_or_empty(s, id).socials,
        access_key_set(s, id, count).handles == s.handles,
        forall|other: Seq<char>| #![auto]
            other != id ==> access_key_set(s, id, count).records.contains_key(other)
                == s.records.contains_key(other) && (s.records.contains_key(other)
                ==> access_key_set(s, id, count).records[other] == s.records[other]),
        account_age_set(s, id, age).records[id].access_key_count == user_or_empty(s, id).access_key_count,
        account_age_set(s, id, age).records[id].socials == user_or_empty(s, id).socials,
        account_age_set(s, id, age).handles == s.handles,
        forall|other: Seq<char>| #![auto]
            other != id ==> account_age_set(s, id, age).records.contains_key(other)
                == s.records.contains_key(other) && (s.records.contains_key(other)
                ==> account_age_set(s, id, age).records[other] == s.records[other]),
{
}

/// Every attestation that is live at time `t` is reachable through the
/// handle index: the index points its `(platform, handle)` at its holder.
pub open spec fn index_covers_live(s: ContractView, t: u64) -> bool {
    forall|a: Seq<char>, p: Seq<char>|
        #![trigger s.records[a].socials[p]]
        s.records.contains_key(a) && s.records[a].socials.contains_key(p) && is_live(
            s.records[a].socials[p],
            t,
        ) ==> s.handles.contains_key((p, s.records[a].socials[p].handle)) && s.handles[(
        p,
        s.records[a].socials[p].handle,
    )] == a
}

/// An empty store satisfies the index invariant at any time.
pub proof fn lemma_empty_store_covers(key: Seq<u8>, t: u64)
    ensures
        index_covers_live(
            ContractView { records: Map::empty(), handles: Map::empty(), admin_pub: key },
            t,
        ),
{
}

/// The index invariant persists as the clock advances: what is live later
/// was live before.
pub proof fn lemma_covers_later(s: ContractView, t1: u64, t2: u64)
    requires
        index_covers_live(s, t1),
        t1 <= t2,
    ensures
        index_covers_live(s, t2),
{
    assert forall|a: Seq<char>, p: Seq<char>|
        s.records.contains_key(a) && s.records[a].socials.contains_key(p) && is_live(
            #[trigger] s.records[a].socials[p],
            t2,
        ) implies s.handles.contains_key((p, s.records[a].socials[p].handle)) && s.handles[(
        p,
        s.records[a].socials[p].handle,
    )] == a by {
        assert(is_live(s.records[a].socials[p], t1));
    }
}

/// An accepted registration, at a time no earlier than the one at which the
/// index invariant held, leaves a store that satisfies it at that time.
pub proof fn lemma_registration_keeps_index(
    s: ContractView,
    t: u64,
    signer: Seq<char>,
    height: u64,
    now: u64,
    platform: Seq<char>,
    signature: Seq<u8>,
    handle: Seq<char>,
    proof: Seq<char>,
    deadline: u64,
)
    requires
        index_covers_live(s, t),
        t <= now,
        now <= u64::MAX - VALIDITY_WINDOW,
        registration_outcome(s, signer, height, now, platform, signature, handle, proof, deadline)
            is Ok,
    ensures
        index_covers_live(registered(s, signer, platform, handle, proof, now), now),
{
    lemma_covers_later(s, t, now);
    let s2 = registered(s, signer, platform, handle, proof, now);
    assert forall|a: Seq<char>, q: Seq<char>|
        s2.records.contains_key(a) && s2.records[a].socials.contains_key(q) && is_live(
            #[trigger] s2.records[a].socials[q],
            now,
        ) implies s2.handles.contains_key((q, s2.records[a].socials[q].handle)) && s2.handles[(
        q,
        s2.records[a].socials[q].handle,
    )] == a by {
        if a == signer {
            if q != platform {
                assert(s.records.contains_key(a));
                assert(s2.records[a].socials[q] == s.records[a].socials[q]);
            }
        } else {
            assert(s2.records[a] == s.records[a]);
            let hq = s.records[a].socials[q].handle;
            assert(s.handles[(q, hq)] == a);
            if (q, hq) == (platform, handle) {
                assert(handle_conflict(s, signer, platform, handle, now));
            }
        }
    }
}

/// Scalar updates leave the index invariant intact.
pub proof fn lemma_scalar_updates_keep_index(s: ContractView, t: u64, id: Seq<char>, count: u32, age: u128)
    requires
        index_covers_live(s, t),
    ensures
        index_covers_live(access_key_set(s, id, count), t),
        index_covers_live(account_age_set(s, id, age), t),
{
    let s1 = access_key_set(s, id, count);
    assert forall|a: Seq<char>, q: Seq<char>|
        s1.records.contains_key(a) && s1.records[a].socials.contains_key(q) && is_live(
            #[trigger] s1.records[a].socials[q],
            t,
        ) implies s1.handles.contains_key((q, s1.records[a].socials[q].handle)) && s1.handles[(
        q,
        s1.records[a].socials[q].handle,
    )] == a by {
        if a == id {
            assert(s.records.contains_key(a));
        }
    }
    let s2 = account_age_set(s, id, age);
    assert forall|a: Seq<char>, q: Seq<char>|
        s2.records.contains_key(a) && s2.records[a].socials.contains_key(q) && is_live(
            #[trigger] s2.records[a].socials[q],
            t,
        ) implies s2.handles.contains_key((q, s2.records[a].socials[q].handle)) && s2.handles[(
        q,
        s2.records[a].socials[q].handle,
    )] == a by {
        if a == id {
            assert(s.records.contains_key(a));
        }
    }
}

/// Under the index invariant, no two distinct identities hold live
/// attestations for the same handle on the same platform.
pub proof fn lemma_live_handles_unique(s: ContractView, t: u64, a: Seq<char>, b: Seq<char>, platform: Seq<char>)
    requires
        index_covers_live(s, t),
        a != b,
        s.records.contains_key(a),
        s.records.contains_key(b),
        s.records[a].socials.contains_key(platform),
        s.records[b].socials.contains_key(platform),
        s.records[a].socials[platform].handle == s.records[b].socials[platform].handle,
    ensures
        !(is_live(s.records[a].socials[platform], t) && is_live(s.records[b].socials[platform], t)),
{
    if is_live(s.records[a].socials[platform], t) && is_live(s.records[b].socials[platform], t) {
        assert(s.handles[(platform, s.records[a].socials[platform].handle)] == a);
        assert(s.handles[(platform, s.records[b].socials[platform].handle)] == b);
    }
}

} // verus!
