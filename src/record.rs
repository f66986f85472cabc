use vstd::prelude::*;
use crate::assoc::{keys_unique, lemma_absent, lemma_present, lemma_push, lemma_update, to_map};

verus! {

/// A time-bounded claim that an identity owns `handle` on some platform.
pub struct SocialData {
    pub issued_date: u64,
    pub handle: String,
    pub proof: String,
    pub expiry_date: u64,
}

/// A social attestation as plain values.
pub ghost struct SocialView {
    pub issued_date: u64,
    pub handle: Seq<char>,
    pub proof: Seq<char>,
    pub expiry_date: u64,
}

impl View for SocialData {
    type V = SocialView;

    open spec fn view(&self) -> SocialView {
        SocialView {
            issued_date: self.issued_date,
            handle: self.handle@,
            proof: self.proof@,
            expiry_date: self.expiry_date,
        }
    }
}

impl SocialData {
    /// A copy of this attestation.
    pub fn duplicate(&self) -> (r: SocialData)
        ensures
            r@ == self@,
    {
        SocialData {
            issued_date: self.issued_date,
            handle: self.handle.clone(),
            proof: self.proof.clone(),
            expiry_date: self.expiry_date,
        }
    }
}

/// An attestation is live strictly before its expiry date.
pub open spec fn is_live(s: SocialView, now: u64) -> bool {
    now < s.expiry_date
}

/// The facts accumulated for one identity.
pub struct UserData {
    access_key_count: Option<u32>,
    account_age: Option<u128>,
    socials: Vec<(String, SocialData)>,
}

/// A record as plain values, its attestations keyed by platform.
pub ghost struct UserView {
    pub access_key_count: Option<u32>,
    pub account_age: Option<u128>,
    pub socials: Map<Seq<char>, SocialView>,
}

/// The attestation list with each platform and attestation replaced by its
/// view.
pub open spec fn social_entries(v: Seq<(String, SocialData)>) -> Seq<(Seq<char>, SocialView)> {
    v.map_values(|e: (String, SocialData)| (e.0@, e.1@))
}

impl View for UserData {
    type V = UserView;

    closed spec fn view(&self) -> UserView {
        UserView {
            access_key_count: self.access_key_count,
            account_age: self.account_age,
            socials: to_map(social_entries(self.socials@)),
        }
    }
}

/// The record of an identity that has no accepted fact yet.
pub open spec fn empty_user() -> UserView {
    UserView { access_key_count: None, account_age: None, socials: Map::empty() }
}

impl UserData {
    /// Each platform occurs at most once.
    pub closed spec fn wf(&self) -> bool {
        keys_unique(social_entries(self.socials@))
    }

    pub(crate) fn empty() -> (r: UserData)
        ensures
            r.wf(),
            r@ == empty_user(),
    {
        UserData { access_key_count: None, account_age: None, socials: Vec::new() }
    }

    /// The number of access keys last attested, if any.
    pub fn access_key_count(&self) -> (r: Option<u32>)
        ensures
            r == self@.access_key_count,
    {
        self.access_key_count
    }

    /// The account creation time last attested, if any.
    pub fn account_age(&self) -> (r: Option<u128>)
        ensures
            r == self@.account_age,
    {
        self.account_age
    }

    pub(crate) fn set_access_key_count(&mut self, count: u32)
        requires
            old(self).wf(),
        ensures
            final(self).wf(),
            final(self)@ == (UserView { access_key_count: Some(count), ..old(self)@ }),
    {
        self.access_key_count = Some(count);
    }

    pub(crate) fn set_account_age(&mut self, age: u128)
        requires
            old(self).wf(),
        ensures
            final(self).wf(),
            final(self)@ == (UserView { account_age: Some(age), ..old(self)@ }),
    {
        self.account_age = Some(age);
    }

    fn find_social(&self, platform: &String) -> (r: Option<usize>)
        requires
            self.wf(),
        ensures
            match r {
                Some(i) => i < self.socials@.len() && self.socials@[i as int].0@ == platform@
                    && self@.socials.contains_key(platform@)
                    && self@.socials[platform@] == self.socials@[i as int].1@,
                None => !self@.socials.contains_key(platform@),
            },
    {
        let ghost es = social_entries(self.socials@);
        let mut i: usize = 0;
        while i < self.socials.len()
            invariant
                i <= self.socials@.len(),
                es == social_entries(self.socials@),
                keys_unique(es),
                forall|j: int| 0 <= j < i ==> #[trigger] es[j].0 != platform@,
            decreases self.socials@.len() - i,
        {
            if self.socials[i].0 == *platform {
                proof {
                    lemma_present(es, i as int);
                }
                return Some(i);
            }
            i = i + 1;
        }
        proof {
            lemma_absent(es, platform@);
        }
        None
    }

    /// The attestation held for `platform`, if any.
    pub fn social(&self, platform: &String) -> (r: Option<&SocialData>)
        requires
            self.wf(),
        ensures
            match r {
                Some(s) => self@.socials.contains_key(platform@) && self@.socials[platform@] == s@,
                None => !self@.socials.contains_key(platform@),
            },
    {
        match self.find_social(platform) {
            Some(i) => Some(&self.socials[i].1),
            None => None,
        }
    }

    /// Replaces or adds the attestation for `platform`.
    pub(crate) fn put_social(&mut self, platform: String, s: SocialData)
        requires
            old(self).wf(),
        ensures
            final(self).wf(),
            final(self)@ == (UserView { socials: old(self)@.socials.insert(platform@, s@), ..old(self)@ }),
    {
        let ghost es = social_entries(self.socials@);
        match self.find_social(&platform) {
            Some(i) => {
                let ghost k = self.socials@[i as int].0;
                self.socials.set(i, (platform, s));
                proof {
                    assert(social_entries(self.socials@) =~= es.update(i as int, (es[i as int].0, s@)));
                    lemma_update(es, i as int, s@);
                }
            },
            None => {
                let ghost pv = platform@;
                proof {
                    assert forall|j: int| 0 <= j < es.len() implies #[trigger] es[j].0 != pv by {
                        if es[j].0 == pv {
                            lemma_present(es, j);
                        }
                    }
                }
                self.socials.push((platform, s));
                proof {
                    assert(social_entries(self.socials@) =~= es.push((pv, s@)));
                    lemma_push(es, pv, s@);
                }
            },
        }
    }
}

} // verus!
