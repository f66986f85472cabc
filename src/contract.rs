use vstd::prelude::*;
use crate::assoc::{keys_unique, lemma_absent, lemma_present, lemma_push, lemma_update, to_map};
use crate::record::{empty_user, is_live, SocialData, SocialView, UserData, UserView};
use crate::signature::{check_signature, signature_verdict, SignatureCheck};
use crate::text::{registration_message, registration_text, scalar_message, scalar_text};

verus! {

/// Nanoseconds in one day.
pub const NANOS_PER_DAY: u64 = 86_400_000_000_000;

/// How long a social attestation stays live after it is accepted (90 days).
pub const VALIDITY_WINDOW: u64 = 90 * NANOS_PER_DAY;

/// Why a request was rejected. No rejected request changes the store.
#[derive(PartialEq, Eq, Debug, Clone, Copy, Structural)]
pub enum AttestError {
    /// The request's deadline height has already been reached.
    ExpiredRequest,
    /// The signature bytes are not a well-formed Ed25519 signature.
    MalformedSignature,
    /// The signature does not verify against the authority key.
    UnauthorizedSignature,
    /// Another identity holds a live attestation for the handle.
    HandleConflict,
    /// The requester resubmitted the proof of its own live attestation.
    DuplicateProof,
}

/// What the host supplies with each request.
pub struct Context {
    /// The identity that signed the transaction.
    pub signer_account_id: String,
    /// The current block height.
    pub block_height: u64,
    /// The current block time, in nanoseconds.
    pub block_timestamp: u64,
}

/// The store: each identity's record, the index from `(platform, handle)` to
/// the identity that last claimed it, and the authority's public key.
pub struct Contract {
    records: Vec<(String, UserData)>,
    handles: Vec<((String, String), String)>,
    admin_pub: Vec<u8>,
}

/// The store as maps: identity to record, `(platform, handle)` to the
/// identity that last claimed it, and the authority key.
pub ghost struct ContractView {
    pub records: Map<Seq<char>, UserView>,
    pub handles: Map<(Seq<char>, Seq<char>), Seq<char>>,
    pub admin_pub: Seq<u8>,
}

/// The record list with each identity and record replaced by its view.
pub open spec fn record_entries(v: Seq<(String, UserData)>) -> Seq<(Seq<char>, UserView)> {
    v.map_values(|e: (String, UserData)| (e.0@, e.1@))
}

/// The handle index list with each key and holder replaced by its view.
pub open spec fn handle_entries(v: Seq<((String, String), String)>) -> Seq<((Seq<char>, Seq<char>), Seq<char>)> {
    v.map_values(|e: ((String, String), String)| ((e.0.0@, e.0.1@), e.1@))
}

impl View for Contract {
    type V = ContractView;

    closed spec fn view(&self) -> ContractView {
        ContractView {
            records: to_map(record_entries(self.records@)),
            handles: to_map(handle_entries(self.handles@)),
            admin_pub: self.admin_pub@,
        }
    }
}

/// The record of `id`, or an empty one where `id` has none yet.
pub open spec fn user_or_empty(s: ContractView, id: Seq<char>) -> UserView {
    if s.records.contains_key(id) {
        s.records[id]
    } else {
        empty_user()
    }
}

/// The index points `(platform, handle)` at another identity, whose record
/// still holds a live attestation for that very handle on that platform.
/// Liveness is judged on the current holder's attestation, so that no two
/// identities ever hold live attestations for one handle.
pub open spec fn handle_conflict(
    s: ContractView,
    requester: Seq<char>,
    platform: Seq<char>,
    handle: Seq<char>,
    now: u64,
) -> bool {
    &&& s.handles.contains_key((platform, handle))
    &&& s.handles[(platform, handle)] != requester
    &&& s.records.contains_key(s.handles[(platform, handle)])
    &&& s.records[s.handles[(platform, handle)]].socials.contains_key(platform)
    &&& s.records[s.handles[(platform, handle)]].socials[platform].handle == handle
    &&& is_live(s.records[s.handles[(platform, handle)]].socials[platform], now)
}

/// The requester already holds a live attestation for `platform` with the
/// same proof.
pub open spec fn duplicate_proof(
    s: ContractView,
    requester: Seq<char>,
    platform: Seq<char>,
    proof: Seq<char>,
    now: u64,
) -> bool {
    &&& s.records.contains_key(requester)
    &&& s.records[requester].socials.contains_key(platform)
    &&& s.records[requester].socials[platform].proof == proof
    &&& is_live(s.records[requester].socials[platform], now)
}

/// The error, if any, for a signature check's outcome.
pub open spec fn signature_error(v: SignatureCheck) -> Option<AttestError> {
    match v {
        SignatureCheck::Valid => None,
        SignatureCheck::Malformed => Some(AttestError::MalformedSignature),
        SignatureCheck::Invalid => Some(AttestError::UnauthorizedSignature),
    }
}

/// The outcome of a handle registration: the deadline first, then the
/// signature, then handle ownership, then resubmission.
pub open spec fn registration_outcome(
    s: ContractView,
    signer: Seq<char>,
    height: u64,
    now: u64,
    platform: Seq<char>,
    signature: Seq<u8>,
    handle: Seq<char>,
    proof: Seq<char>,
    deadline: u64,
) -> Result<(), AttestError> {
    let message = registration_text(signer, platform, handle, proof, deadline as nat);
    let bad_signature = signature_error(signature_verdict(s.admin_pub, message, signature));
    if deadline <= height {
        Err(AttestError::ExpiredRequest)
    } else if bad_signature is Some {
        Err(bad_signature->0)
    } else if handle_conflict(s, signer, platform, handle, now) {
        Err(AttestError::HandleConflict)
    } else if duplicate_proof(s, signer, platform, proof, now) {
        Err(AttestError::DuplicateProof)
    } else {
        Ok(())
    }
}

/// The store after `id` registers `handle` on `platform` at time `now`.
pub open spec fn registered(
    s: ContractView,
    id: Seq<char>,
    platform: Seq<char>,
    handle: Seq<char>,
    proof: Seq<char>,
    now: u64,
) -> ContractView {
    let social = SocialView {
        issued_date: now,
        handle,
        proof,
        expiry_date: (now + VALIDITY_WINDOW) as u64,
    };
    let user = user_or_empty(s, id);
    ContractView {
        records: s.records.insert(id, UserView { socials: user.socials.insert(platform, social), ..user }),
        handles: s.handles.insert((platform, handle), id),
        ..s
    }
}

/// The outcome of a scalar update: the deadline first, then the signature.
pub open spec fn scalar_outcome(
    s: ContractView,
    signer: Seq<char>,
    height: u64,
    signature: Seq<u8>,
    value: nat,
    deadline: u64,
) -> Result<(), AttestError> {
    let message = scalar_text(signer, value, deadline as nat);
    let bad_signature = signature_error(signature_verdict(s.admin_pub, message, signature));
    if deadline <= height {
        Err(AttestError::ExpiredRequest)
    } else if bad_signature is Some {
        Err(bad_signature->0)
    } else {
        Ok(())
    }
}

/// The store after the access-key count of `id` is set to `count`.
pub open spec fn access_key_set(s: ContractView, id: Seq<char>, count: u32) -> ContractView {
    ContractView {
        records: s.records.insert(id, UserView { access_key_count: Some(count), ..user_or_empty(s, id) }),
        ..s
    }
}

/// The store after the account age of `id` is set to `age`.
pub open spec fn account_age_set(s: ContractView, id: Seq<char>, age: u128) -> ContractView {
    ContractView {
        records: s.records.insert(id, UserView { account_age: Some(age), ..user_or_empty(s, id) }),
        ..s
    }
}

/// One month of 30 days, in nanoseconds.
pub const ONE_MONTH: u64 = 30 * NANOS_PER_DAY;

/// Three months of 30 days, in nanoseconds.
pub const THREE_MONTHS: u64 = 90 * NANOS_PER_DAY;

/// Six months of 30 days, in nanoseconds.
pub const SIX_MONTHS: u64 = 180 * NANOS_PER_DAY;

/// One year of 365 days, in nanoseconds.
pub const ONE_YEAR: u64 = 365 * NANOS_PER_DAY;

/// Two years of 365 days, in nanoseconds.
pub const TWO_YEARS: u64 = 730 * NANOS_PER_DAY;

/// The identity has a record whose access-key count is set and at least `n`.
pub open spec fn has_access_keys(s: ContractView, id: Seq<char>, n: u32) -> bool {
    &&& s.records.contains_key(id)
    &&& s.records[id].access_key_count is Some
    &&& s.records[id].access_key_count->0 >= n
}

/// The identity has a record whose account age is set, not after `now`, and
/// lies more than (`strict`) or at least `span` nanoseconds before `now`.
pub open spec fn age_over(s: ContractView, id: Seq<char>, now: u64, span: u64, strict: bool) -> bool {
    &&& s.records.contains_key(id)
    &&& s.records[id].account_age is Some
    &&& s.records[id].account_age->0 <= now
    &&& if strict {
        now - s.records[id].account_age->0 > span
    } else {
        now - s.records[id].account_age->0 >= span
    }
}

/// The identity has an attestation for `platform`, and, where `need_live`,
/// it is live at `now`.
pub open spec fn has_platform(s: ContractView, id: Seq<char>, platform: Seq<char>, now: u64, need_live: bool) -> bool {
    &&& s.records.contains_key(id)
    &&& s.records[id].socials.contains_key(platform)
    &&& (need_live ==> is_live(s.records[id].socials[platform], now))
}

impl Contract {
    /// Keys are unique in both lists and every record is well formed.
    pub closed spec fn wf(&self) -> bool {
        &&& keys_unique(record_entries(self.records@))
        &&& keys_unique(handle_entries(self.handles@))
        &&& forall|i: int| 0 <= i < self.records@.len() ==> (#[trigger] self.records@[i]).1.wf()
    }

    /// An empty store that trusts the 32-byte Ed25519 key `pub_key`.
    pub fn new(pub_key: Vec<u8>) -> (r: Self)
        ensures
            r.wf(),
            r@.records == Map::<Seq<char>, UserView>::empty(),
            r@.handles == Map::<(Seq<char>, Seq<char>), Seq<char>>::empty(),
            r@.admin_pub == pub_key@,
    {
        let r = Contract { records: Vec::new(), handles: Vec::new(), admin_pub: pub_key };
        proof {
            assert(record_entries(r.records@) =~= Seq::empty());
            assert(handle_entries(r.handles@) =~= Seq::empty());
        }
        r
    }

    fn find_record(&self, id: &String) -> (r: Option<usize>)
        requires
            self.wf(),
        ensures
            match r {
                Some(i) => i < self.records@.len() && self.records@[i as int].0@ == id@
                    && self@.records.contains_key(id@)
                    && self@.records[id@] == self.records@[i as int].1@,
                None => !self@.records.contains_key(id@),
            },
    {
        let ghost es = record_entries(self.records@);
        let mut i: usize = 0;
        while i < self.records.len()
            invariant
                i <= self.records@.len(),
                es == record_entries(self.records@),
                keys_unique(es),
                forall|j: int| 0 <= j < i ==> #[trigger] es[j].0 != id@,
            decreases self.records@.len() - i,
        {
            if self.records[i].0 == *id {
                proof {
                    lemma_present(es, i as int);
                }
                return Some(i);
            }
            i = i + 1;
        }
        proof {
            lemma_absent(es, id@);
        }
        None
    }

    /// The record of `account_id`, if it has one.
    pub fn record(&self, account_id: &String) -> (r: Option<&UserData>)
        requires
            self.wf(),
        ensures
            match r {
                Some(u) => self@.records.contains_key(account_id@) && self@.records[account_id@] == u@
                    && u.wf(),
                None => !self@.records.contains_key(account_id@),
            },
    {
        match self.find_record(account_id) {
            Some(i) => Some(&self.records[i].1),
            None => None,
        }
    }

    fn find_handle(&self, platform: &String, handle: &String) -> (r: Option<usize>)
        requires
            self.wf(),
        ensures
            match r {
                Some(i) => i < self.handles@.len()
                    && self.handles@[i as int].0.0@ == platform@
                    && self.handles@[i as int].0.1@ == handle@
                    && self@.handles.contains_key((platform@, handle@))
                    && self@.handles[(platform@, handle@)] == self.handles@[i as int].1@,
                None => !self@.handles.contains_key((platform@, handle@)),
            },
    {
        let ghost es = handle_entries(self.handles@);
        let ghost key = (platform@, handle@);
        let mut i: usize = 0;
        while i < self.handles.len()
            invariant
                i <= self.handles@.len(),
                es == handle_entries(self.handles@),
                key == (platform@, handle@),
                keys_unique(es),
                forall|j: int| 0 <= j < i ==> #[trigger] es[j].0 != key,
            decreases self.handles@.len() - i,
        {
            if self.handles[i].0.0 == *platform && self.handles[i].0.1 == *handle {
                proof {
                    lemma_present(es, i as int);
                }
                return Some(i);
            }
            i = i + 1;
        }
        proof {
            lemma_absent(es, key);
        }
        None
    }

    /// The identity that last claimed `handle` on `platform`, if any.
    pub fn handle_holder(&self, platform: &String, handle: &String) -> (r: Option<&String>)
        requires
            self.wf(),
        ensures
            match r {
                Some(h) => self@.handles.contains_key((platform@, handle@))
                    && self@.handles[(platform@, handle@)] == h@,
                None => !self@.handles.contains_key((platform@, handle@)),
            },
    {
        match self.find_handle(platform, handle) {
            Some(i) => Some(&self.handles[i].1),
            None => None,
        }
    }

    fn put_handle(&mut self, platform: String, handle: String, holder: String)
        requires
            old(self).wf(),
        ensures
            final(self).wf(),
            final(self)@ == (ContractView {
                handles: old(self)@.handles.insert((platform@, handle@), holder@),
                ..old(self)@
            }),
    {
        let ghost es = handle_entries(self.handles@);
        let ghost key = (platform@, handle@);
        let ghost hv = holder@;
        match self.find_handle(&platform, &handle) {
            Some(i) => {
                self.handles.set(i, ((platform, handle), holder));
                proof {
                    assert(handle_entries(self.handles@) =~= es.update(i as int, (es[i as int].0, hv)));
                    lemma_update(es, i as int, hv);
                }
            },
            None => {
                proof {
                    assert forall|j: int| 0 <= j < es.len() implies #[trigger] es[j].0 != key by {
                        if es[j].0 == key {
                            lemma_present(es, j);
                        }
                    }
                }
                self.handles.push(((platform, handle), holder));
                proof {
                    assert(handle_entries(self.handles@) =~= es.push((key, hv)));
                    lemma_push(es, key, hv);
                }
            },
        }
    }

    /// Moves the record of `id` out of the store, leaving an empty record in
    /// its slot; creates that slot where `id` has no record.
    fn take_record(&mut self, id: &String) -> (r: (usize, UserData))
        requires
            old(self).wf(),
        ensures
            final(self).wf(),
            r.0 < final(self).records@.len(),
            final(self).records@[r.0 as int].0@ == id@,
            r.1.wf(),
            r.1@ == user_or_empty(old(self)@, id@),
            final(self)@ == (ContractView {
                records: old(self)@.records.insert(id@, empty_user()),
                ..old(self)@
            }),
    {
        let ghost es = record_entries(self.records@);
        match self.find_record(id) {
            Some(i) => {
                let mut slot = (id.clone(), UserData::empty());
                self.records.set_and_swap(i, &mut slot);
                proof {
                    assert(record_entries(self.records@) =~= es.update(i as int, (es[i as int].0, empty_user())));
                    lemma_update(es, i as int, empty_user());
                    assert(old(self).records@[i as int].1.wf());
                    assert forall|j: int| 0 <= j < self.records@.len() implies (#[trigger] self.records@[j]).1.wf() by {
                        if j != i {
                            assert(self.records@[j] == old(self).records@[j]);
                        }
                    }
                }
                (i, slot.1)
            },
            None => {
                let ghost iv = id@;
                proof {
                    assert forall|j: int| 0 <= j < es.len() implies #[trigger] es[j].0 != iv by {
                        if es[j].0 == iv {
                            lemma_present(es, j);
                        }
                    }
                }
                self.records.push((id.clone(), UserData::empty()));
                proof {
                    assert(record_entries(self.records@) =~= es.push((iv, empty_user())));
                    lemma_push(es, iv, empty_user());
                    assert forall|j: int| 0 <= j < self.records@.len() implies (#[trigger] self.records@[j]).1.wf() by {
                        if j < es.len() {
                            assert(self.records@[j] == old(self).records@[j]);
                        }
                    }
                }
                (self.records.len() - 1, UserData::empty())
            },
        }
    }

    /// Puts `u` into slot `i`, under the identity that the slot already names.
    fn store_record(&mut self, i: usize, u: UserData)
        requires
            old(self).wf(),
            i < old(self).records@.len(),
            u.wf(),
        ensures
            final(self).wf(),
            final(self)@ == (ContractView {
                records: old(self)@.records.insert(old(self).records@[i as int].0@, u@),
                ..old(self)@
            }),
    {
        let ghost es = record_entries(self.records@);
        let ghost uv = u@;
        let mut slot = (String::new(), UserData::empty());
        self.records.set_and_swap(i, &mut slot);
        let key = slot.0;
        self.records.set(i, (key, u));
        proof {
            assert(record_entries(self.records@) =~= es.update(i as int, (es[i as int].0, uv)));
            lemma_update(es, i as int, uv);
            assert forall|j: int| 0 <= j < self.records@.len() implies (#[trigger] self.records@[j]).1.wf() by {
                if j != i {
                    assert(self.records@[j] == old(self).records@[j]);
                }
            }
        }
    }

    fn conflicting_holder(&self, requester: &String, platform: &String, handle: &String, now: u64) -> (r: bool)
        requires
            self.wf(),
        ensures
            r == handle_conflict(self@, requester@, platform@, handle@, now),
    {
        match self.handle_holder(platform, handle) {
            None => false,
            Some(holder) => {
                if *holder == *requester {
                    false
                } else {
                    match self.record(holder) {
                        None => false,
                        Some(u) => match u.social(platform) {
                            None => false,
                            Some(s) => s.handle == *handle && now < s.expiry_date,
                        },
                    }
                }
            },
        }
    }

    fn resubmitted_proof(&self, requester: &String, platform: &String, proof: &String, now: u64) -> (r: bool)
        requires
            self.wf(),
        ensures
            r == duplicate_proof(self@, requester@, platform@, proof@, now),
    {
        match self.record(requester) {
            None => false,
            Some(u) => match u.social(platform) {
                None => false,
                Some(s) => s.proof == *proof && now < s.expiry_date,
            },
        }
    }

    fn signature_outcome(&self, message: &String, signature: &Vec<u8>) -> (r: Result<(), AttestError>)
        ensures
            r == match signature_error(signature_verdict(self@.admin_pub, message@, signature@)) {
                Some(e) => Err(e),
                None => Ok(()),
            },
    {
        proof {
            assert(self@.admin_pub == self.admin_pub@);
        }
        match check_signature(self.admin_pub.as_slice(), message.as_str(), signature.as_slice()) {
            SignatureCheck::Valid => Ok(()),
            SignatureCheck::Malformed => Err(AttestError::MalformedSignature),
            SignatureCheck::Invalid => Err(AttestError::UnauthorizedSignature),
        }
    }

    /// Registers `handle` on `platform` for the signer, as signed by the
    /// authority over `signer,platform,handle,proof,max_block_height`.
    ///
    /// The request is refused once `max_block_height` is reached, when the
    /// signature is malformed or does not verify, when another identity holds
    /// a live attestation for the handle, or when the signer resubmits the
    /// proof of its own live attestation for the platform. Otherwise the
    /// signer's attestation for the platform is replaced by one issued now
    /// and valid for `VALIDITY_WINDOW`, and the handle points at the signer.
    pub fn register_social(
        &mut self,
        ctx: &Context,
        platform: String,
        signature: Vec<u8>,
        handle: String,
        proof: String,
        max_block_height: u64,
    ) -> (r: Result<(), AttestError>)
        requires
            old(self).wf(),
            ctx.block_timestamp <= u64::MAX - VALIDITY_WINDOW,
        ensures
            final(self).wf(),
            r == registration_outcome(
                old(self)@,
                ctx.signer_account_id@,
                ctx.block_height,
                ctx.block_timestamp,
                platform@,
                signature@,
                handle@,
                proof@,
                max_block_height,
            ),
            r is Ok ==> final(self)@ == registered(
                old(self)@,
                ctx.signer_account_id@,
                platform@,
                handle@,
                proof@,
                ctx.block_timestamp,
            ),
            r is Err ==> final(self)@ == old(self)@,
    {
        if max_block_height <= ctx.block_height {
            return Err(AttestError::ExpiredRequest);
        }
        let signer = &ctx.signer_account_id;
        let now = ctx.block_timestamp;
        let message = registration_message(signer, &platform, &handle, &proof, max_block_height);
        let checked = self.signature_outcome(&message, &signature);
        if checked.is_err() {
            return checked;
        }
        if self.conflicting_holder(signer, &platform, &handle, now) {
            return Err(AttestError::HandleConflict);
        }
        if self.resubmitted_proof(signer, &platform, &proof, now) {
            return Err(AttestError::DuplicateProof);
        }
        let ghost s0 = self@;
        let social = SocialData {
            issued_date: now,
            handle: handle.clone(),
            proof,
            expiry_date: now + VALIDITY_WINDOW,
        };
        let (i, mut user) = self.take_record(signer);
        user.put_social(platform.clone(), social);
        self.store_record(i, user);
        self.put_handle(platform, handle, signer.clone());
        proof {
            assert(self@.records =~= registered(s0, signer@, platform@, handle@, proof@, now).records);
        }
        Ok(())
    }
    /// Sets the signer's access-key count to `account_info`, as signed by the
    /// authority over `signer,account_info,max_block_height`.
    ///
    /// Refused once `max_block_height` is reached, or when the signature is
    /// malformed or does not verify. Creates the record where the signer has
    /// none; every other field and record is left as it was.
    pub fn update_access_key(&mut self, ctx: &Context, signature: Vec<u8>, account_info: u32, max_block_height: u64) -> (r: Result<(), AttestError>)
        requires
            old(self).wf(),
        ensures
            final(self).wf(),
            r == scalar_outcome(
                old(self)@,
                ctx.signer_account_id@,
                ctx.block_height,
                signature@,
                account_info as nat,
                max_block_height,
            ),
            r is Ok ==> final(self)@ == access_key_set(old(self)@, ctx.signer_account_id@, account_info),
            r is Err ==> final(self)@ == old(self)@,
    {
        if max_block_height <= ctx.block_height {
            return Err(AttestError::ExpiredRequest);
        }
        let signer = &ctx.signer_account_id;
        let message = scalar_message(signer, account_info as u128, max_block_height);
        let checked = self.signature_outcome(&message, &signature);
        if checked.is_err() {
            return checked;
        }
        let ghost s0 = self@;
        let (i, mut user) = self.take_record(signer);
        user.set_access_key_count(account_info);
        self.store_record(i, user);
        proof {
            assert(self@.records =~= access_key_set(s0, signer@, account_info).records);
        }
        Ok(())
    }

    /// Sets the signer's account creation time to `account_info`, as signed
    /// by the authority over `signer,account_info,max_block_height`.
    ///
    /// Refused once `max_block_height` is reached, or when the signature is
    /// malformed or does not verify. Creates the record where the signer has
    /// none; every other field and record is left as it was.
    pub fn update_contract_age(&mut self, ctx: &Context, signature: Vec<u8>, account_info: u128, max_block_height: u64) -> (r: Result<(), AttestError>)
        requires
            old(self).wf(),
        ensures
            final(self).wf(),
            r == scalar_outcome(
                old(self)@,
                ctx.signer_account_id@,
                ctx.block_height,
                signature@,
                account_info as nat,
                max_block_height,
            ),
            r is Ok ==> final(self)@ == account_age_set(old(self)@, ctx.signer_account_id@, account_info),
            r is Err ==> final(self)@ == old(self)@,
    {
        if max_block_height <= ctx.block_height {
            return Err(AttestError::ExpiredRequest);
        }
        let signer = &ctx.signer_account_id;
        let message = scalar_message(signer, account_info, max_block_height);
        let checked = self.signature_outcome(&message, &signature);
        if checked.is_err() {
            return checked;
        }
        let ghost s0 = self@;
        let (i, mut user) = self.take_record(signer);
        user.set_account_age(account_info);
        self.store_record(i, user);
        proof {
            assert(self@.records =~= account_age_set(s0, signer@, account_info).records);
        }
        Ok(())
    }

    fn access_keys_at_least(&self, account_id: &String, n: u32) -> (r: bool)
        requires
            self.wf(),
        ensures
            r == has_access_keys(self@, account_id@, n),
    {
        match self.record(account_id) {
            None => false,
            Some(u) => match u.access_key_count() {
                Some(c) => c >= n,
                None => false,
            },
        }
    }

    fn age_reaches(&self, account_id: &String, now: u64, span: u64, strict: bool) -> (r: bool)
        requires
            self.wf(),
        ensures
            r == age_over(self@, account_id@, now, span, strict),
    {
        match self.record(account_id) {
            None => false,
            Some(u) => match u.account_age() {
                None => false,
                Some(age) => {
                    if age > now as u128 {
                        false
                    } else {
                        let elapsed = now as u128 - age;
                        if strict {
                            elapsed > span as u128
                        } else {
                            elapsed >= span as u128
                        }
                    }
                },
            },
        }
    }

    fn platform_state(&self, account_id: &String, platform: &String, now: u64, need_live: bool) -> (r: bool)
        requires
            self.wf(),
        ensures
            r == has_platform(self@, account_id@, platform@, now, need_live),
    {
        match self.record(account_id) {
            None => false,
            Some(u) => match u.social(platform) {
                None => false,
                Some(s) => !need_live || now < s.expiry_date,
            },
        }
    }

    /// Whether the identity is attested to hold at least 5 access keys.
    pub fn connected_to_5_contracts(&self, account_id: &String) -> (r: bool)
        requires
            self.wf(),
        ensures
            r == has_access_keys(self@, account_id@, 5),
    {
        self.access_keys_at_least(account_id, 5)
    }

    /// Whether the identity is attested to hold at least 10 access keys.
    pub fn connected_to_10_contracts(&self, account_id: &String) -> (r: bool)
        requires
            self.wf(),
        ensures
            r == has_access_keys(self@, account_id@, 10),
    {
        self.access_keys_at_least(account_id, 10)
    }

    /// Whether the identity is attested to hold at least 20 access keys.
    pub fn connected_to_20_contracts(&self, account_id: &String) -> (r: bool)
        requires
            self.wf(),
        ensures
            r == has_access_keys(self@, account_id@, 20),
    {
        self.access_keys_at_least(account_id, 20)
    }

    /// Whether the identity holds a live attestation on `lens` at `now`.
    pub fn connected_to_lens(&self, account_id: &String, now: u64) -> (r: bool)
        requires
            self.wf(),
        ensures
            r == has_platform(self@, account_id@, "lens"@, now, true),
    {
        let platform = String::from_str("lens");
        self.platform_state(account_id, &platform, now, true)
    }

    /// Whether the identity has ever been attested on `farcaster`.
    pub fn connected_to_farcaster(&self, account_id: &String) -> (r: bool)
        requires
            self.wf(),
        ensures
            r == has_platform(self@, account_id@, "farcaster"@, 0, false),
    {
        let platform = String::from_str("farcaster");
        self.platform_state(account_id, &platform, 0, false)
    }

    /// Whether the identity has ever been attested on `platform`.
    pub fn connected_to_platform(&self, account_id: &String, platform: String) -> (r: bool)
        requires
            self.wf(),
        ensures
            r == has_platform(self@, account_id@, platform@, 0, false),
    {
        self.platform_state(account_id, &platform, 0, false)
    }

    /// Whether more than six months have passed at `now` since the
    /// attested account creation time.
    pub fn six_month_old(&self, account_id: &String, now: u64) -> (r: bool)
        requires
            self.wf(),
        ensures
            r == age_over(self@, account_id@, now, SIX_MONTHS, true),
    {
        self.age_reaches(account_id, now, SIX_MONTHS, true)
    }

    /// Whether at least two years have passed at `now` since the attested
    /// account creation time.
    pub fn is_two_year_old(&self, account_id: &String, now: u64) -> (r: bool)
        requires
            self.wf(),
        ensures
            r == age_over(self@, account_id@, now, TWO_YEARS, false),
    {
        self.age_reaches(account_id, now, TWO_YEARS, false)
    }

    /// Whether at least one year has passed at `now` since the attested
    /// account creation time.
    pub fn is_one_year_old(&self, account_id: &String, now: u64) -> (r: bool)
        requires
            self.wf(),
        ensures
            r == age_over(self@, account_id@, now, ONE_YEAR, false),
    {
        self.age_reaches(account_id, now, ONE_YEAR, false)
    }

    /// Whether at least three months have passed at `now` since the attested
    /// account creation time.
    pub fn is_three_month_old(&self, account_id: &String, now: u64) -> (r: bool)
        requires
            self.wf(),
        ensures
            r == age_over(self@, account_id@, now, THREE_MONTHS, false),
    {
        self.age_reaches(account_id, now, THREE_MONTHS, false)
    }

    /// Whether at least one month has passed at `now` since the attested
    /// account creation time.
    pub fn is_a_month_old(&self, account_id: &String, now: u64) -> (r: bool)
        requires
            self.wf(),
        ensures
            r == age_over(self@, account_id@, now, ONE_MONTH, false),
    {
        self.age_reaches(account_id, now, ONE_MONTH, false)
    }
}

} // verus!
