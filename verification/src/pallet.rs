use vstd::prelude::*;

use crate::records::{AccountId, AuthInfo, BlockNumber, Error, Event, OrgInfo};
use crate::store::{clone_bytes, StoreMap};

verus! {

/// The core's persistent state: the organization table, the rights index, and
/// the rights detail table, each keyed by a byte string and exclusively owned
/// by the operations below.
pub struct Pallet {
    auth_right: StoreMap<AccountId>,
    auth_detail: StoreMap<AuthInfo>,
    org: StoreMap<OrgInfo>,
}

impl Pallet {
    /// The organization table: code to organization record.
    pub closed spec fn orgs(self) -> Map<Seq<u8>, OrgInfo> {
        self.org@
    }

    /// The rights index: content hash to the sole claiming account.
    pub closed spec fn rights(self) -> Map<Seq<u8>, AccountId> {
        self.auth_right@
    }

    /// The rights detail table: content hash to the full claim record.
    pub closed spec fn details(self) -> Map<Seq<u8>, AuthInfo> {
        self.auth_detail@
    }

    /// The state invariant: each table keeps one record per key, a detail
    /// record exists exactly where a rights record does, and each detail
    /// record carries its own key and the owner the rights index names.
    pub closed spec fn wf(self) -> bool {
        &&& self.org.wf()
        &&& self.auth_right.wf()
        &&& self.auth_detail.wf()
        &&& self.rights().dom() == self.details().dom()
        &&& forall|h: Seq<u8>|
            self.details().contains_key(h) ==> (#[trigger] self.details()[h]).hash@ == h
                && self.details()[h].account_id == self.rights()[h]
    }

    /// A fresh state with all three tables empty.
    pub fn new() -> (r: Pallet)
        ensures
            r.wf(),
            r.orgs() == Map::<Seq<u8>, OrgInfo>::empty(),
            r.rights() == Map::<Seq<u8>, AccountId>::empty(),
            r.details() == Map::<Seq<u8>, AuthInfo>::empty(),
    {
        Pallet { auth_right: StoreMap::new(), auth_detail: StoreMap::new(), org: StoreMap::new() }
    }

    /// Registers the organization `orgcode` under the name `orgname` on behalf
    /// of the signed account `who`.
    #[allow(non_snake_case)]
    pub fn orgReg(&mut self, who: AccountId, orgcode: Vec<u8>, orgname: Vec<u8>) -> (r: Result<
        Event,
        Error,
    >)
        requires
            old(self).wf(),
        ensures
            final(self).wf(),
            org_reg_transition(*old(self), *final(self), who, orgcode@, orgname@, r),
    {
        if self.org.contains_key(&orgcode) {
            return Err(Error::OrgAlreadyExist);
        }
        let info = OrgInfo::new(clone_bytes(&orgcode), clone_bytes(&orgname), false);
        self.org.insert(clone_bytes(&orgcode), info);
        proof {
            assert(self.orgs().dom() =~= old(self).orgs().dom().insert(orgcode@));
        }
        Ok(Event::OrgRegSuccess(who, orgcode, orgname))
    }

    /// Sets the approval status of the organization `orgcode` to `status`, on
    /// behalf of `who`, the account the privileged authority resolves to.
    #[allow(non_snake_case)]
    pub fn orgApprove(&mut self, who: AccountId, orgcode: Vec<u8>, status: bool) -> (r: Result<
        Event,
        Error,
    >)
        requires
            old(self).wf(),
        ensures
            final(self).wf(),
            org_approve_transition(*old(self), *final(self), who, orgcode@, status, r),
    {
        let updated = match self.org.get(&orgcode) {
            None => {
                return Err(Error::NoSuchOrg);
            },
            Some(o) => OrgInfo::new(clone_bytes(&o.code), clone_bytes(&o.name), status),
        };
        self.org.insert(clone_bytes(&orgcode), updated);
        proof {
            assert(self.orgs().dom() =~= old(self).orgs().dom());
        }
        Ok(Event::OrgApproveSuccess(who, orgcode, status))
    }

    /// Claims the content hash `hash` for the signed account `who`, sponsored
    /// by the approved organization `orgcode`; `block_number` is the current
    /// block height read from the host's counter.
    #[allow(non_snake_case)]
    pub fn authRight(
        &mut self,
        who: AccountId,
        hash: Vec<u8>,
        description: Vec<u8>,
        orgcode: Vec<u8>,
        block_number: BlockNumber,
    ) -> (r: Result<Event, Error>)
        requires
            old(self).wf(),
        ensures
            final(self).wf(),
            auth_right_transition(
                *old(self),
                *final(self),
                who,
                hash@,
                description@,
                orgcode@,
                block_number,
                r,
            ),
    {
        if self.auth_right.contains_key(&hash) {
            return Err(Error::HashAlreadyExist);
        }
        let approved = match self.org.get(&orgcode) {
            None => {
                return Err(Error::NoSuchOrg);
            },
            Some(o) => o.status,
        };
        if !approved {
            return Err(Error::StatusNotAllow);
        }
        let detail = AuthInfo::new(
            clone_bytes(&hash),
            who,
            block_number,
            clone_bytes(&description),
            clone_bytes(&orgcode),
        );
        self.auth_right.insert(clone_bytes(&hash), who);
        self.auth_detail.insert(clone_bytes(&hash), detail);
        proof {
            assert(self.details().dom() =~= old(self).details().dom().insert(hash@));
            assert(self.rights().dom() =~= self.details().dom());
        }
        Ok(Event::AuthRightSuccessed(who, hash, orgcode))
    }

    /// The account that claimed `hash`, or its absence.
    pub fn authright(&self, hash: &Vec<u8>) -> (r: Option<&AccountId>)
        requires
            self.wf(),
        ensures
            match r {
                Some(a) => self.rights().contains_key(hash@) && *a == self.rights()[hash@],
                None => !self.rights().contains_key(hash@),
            },
    {
        self.auth_right.get(hash)
    }

    /// The full claim record stored under `hash`, or its absence.
    pub fn authdetail(&self, hash: &Vec<u8>) -> (r: Option<&AuthInfo>)
        requires
            self.wf(),
        ensures
            match r {
                Some(d) => self.details().contains_key(hash@) && *d == self.details()[hash@],
                None => !self.details().contains_key(hash@),
            },
    {
        self.auth_detail.get(hash)
    }

    /// The organization record stored under `code`, or its absence.
    pub fn org(&self, code: &Vec<u8>) -> (r: Option<&OrgInfo>)
        requires
            self.wf(),
        ensures
            match r {
                Some(o) => self.orgs().contains_key(code@) && *o == self.orgs()[code@],
                None => !self.orgs().contains_key(code@),
            },
    {
        self.org.get(code)
    }
}

/// The invariant ties the two claim tables together: a detail record exists
/// exactly where a rights record does, and it carries its own key and the
/// owner the rights index names.
pub proof fn lemma_wf_tables(p: Pallet)
    requires
        p.wf(),
    ensures
        p.rights().dom() == p.details().dom(),
        forall|h: Seq<u8>|
            p.details().contains_key(h) ==> (#[trigger] p.details()[h]).hash@ == h
                && p.details()[h].account_id == p.rights()[h],
{
}

/// What a registration does: with `code` already present it fails with
/// `OrgAlreadyExist` and changes nothing; otherwise it stores a fresh
/// organization record with status `false` and reports `OrgRegSuccess`.
pub open spec fn org_reg_transition(
    pre: Pallet,
    post: Pallet,
    who: AccountId,
    code: Seq<u8>,
    name: Seq<u8>,
    r: Result<Event, Error>,
) -> bool {
    if pre.orgs().contains_key(code) {
        &&& r == Err::<Event, Error>(Error::OrgAlreadyExist)
        &&& post == pre
    } else {
        &&& (r matches Ok(Event::OrgRegSuccess(a, c, n)) && a == who && c@ == code && n@ == name)
        &&& post.orgs().dom() == pre.orgs().dom().insert(code)
        &&& post.orgs()[code].code@ == code
        &&& post.orgs()[code].name@ == name
        &&& post.orgs()[code].status == false
        &&& (forall|k: Seq<u8>|
            k != code && pre.orgs().contains_key(k) ==> post.orgs()[k] == pre.orgs()[k])
        &&& post.rights() == pre.rights()
        &&& post.details() == pre.details()
    }
}

/// What an approval does: with `code` absent it fails with `NoSuchOrg` and
/// changes nothing; otherwise it overwrites the stored status with `status`,
/// leaves code and name as they were, and reports `OrgApproveSuccess`.
pub open spec fn org_approve_transition(
    pre: Pallet,
    post: Pallet,
    who: AccountId,
    code: Seq<u8>,
    status: bool,
    r: Result<Event, Error>,
) -> bool {
    if !pre.orgs().contains_key(code) {
        &&& r == Err::<Event, Error>(Error::NoSuchOrg)
        &&& post == pre
    } else {
        &&& (r matches Ok(Event::OrgApproveSuccess(a, c, s)) && a == who && c@ == code && s
            == status)
        &&& post.orgs().dom() == pre.orgs().dom()
        &&& post.orgs()[code].code@ == pre.orgs()[code].code@
        &&& post.orgs()[code].name@ == pre.orgs()[code].name@
        &&& post.orgs()[code].status == status
        &&& (forall|k: Seq<u8>|
            k != code && pre.orgs().contains_key(k) ==> post.orgs()[k] == pre.orgs()[k])
        &&& post.rights() == pre.rights()
        &&& post.details() == pre.details()
    }
}

/// What a claim does, with its checks in order: a hash already claimed fails
/// with `HashAlreadyExist`; an unknown organization fails with `NoSuchOrg`; an
/// unapproved one fails with `StatusNotAllow`; every failure changes nothing.
/// Otherwise, in one atomic step, the rights index maps `hash` to `who` and
/// the detail table gains the full claim record, and `AuthRightSuccessed` is
/// reported.
pub open spec fn auth_right_transition(
    pre: Pallet,
    post: Pallet,
    who: AccountId,
    hash: Seq<u8>,
    description: Seq<u8>,
    code: Seq<u8>,
    height: BlockNumber,
    r: Result<Event, Error>,
) -> bool {
    if pre.rights().contains_key(hash) {
        &&& r == Err::<Event, Error>(Error::HashAlreadyExist)
        &&& post == pre
    } else if !pre.orgs().contains_key(code) {
        &&& r == Err::<Event, Error>(Error::NoSuchOrg)
        &&& post == pre
    } else if !pre.orgs()[code].status {
        &&& r == Err::<Event, Error>(Error::StatusNotAllow)
        &&& post == pre
    } else {
        &&& (r matches Ok(Event::AuthRightSuccessed(a, h, c)) && a == who && h@ == hash && c@
            == code)
        &&& post.rights() == pre.rights().insert(hash, who)
        &&& post.details().dom() == pre.details().dom().insert(hash)
        &&& post.details()[hash].hash@ == hash
        &&& post.details()[hash].account_id == who
        &&& post.details()[hash].blocknumber == height
        &&& post.details()[hash].description@ == description
        &&& post.details()[hash].orgcode@ == code
        &&& (forall|k: Seq<u8>|
            k != hash && pre.details().contains_key(k) ==> post.details()[k] == pre.details()[k])
        &&& post.orgs() == pre.orgs()
    }
}

} // verus!
