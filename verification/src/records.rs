use vstd::prelude::*;

verus! {

/// Identifier of a signed account, as resolved by the host's
/// origin-authentication service.
pub type AccountId = u64;

/// Block height read from the host chain's monotonic block counter.
pub type BlockNumber = u64;

/// A registered organization. `code` is the primary key of the organization
/// table; `status` says whether the privileged authority has approved the
/// organization, and starts out `false` at registration.
pub struct OrgInfo {
    pub code: Vec<u8>,
    pub name: Vec<u8>,
    pub status: bool,
}

impl OrgInfo {
    pub fn new(code: Vec<u8>, name: Vec<u8>, status: bool) -> (r: Self)
        ensures
            r.code == code,
            r.name == name,
            r.status == status,
    {
        Self { code, name, status }
    }
}

/// The full record of a rights claim, keyed by the same content hash as the
/// rights index: the claiming account, the block height at claim time, a
/// free-text description, and the code of the sponsoring organization.
pub struct AuthInfo {
    pub hash: Vec<u8>,
    pub account_id: AccountId,
    pub blocknumber: BlockNumber,
    pub description: Vec<u8>,
    pub orgcode: Vec<u8>,
}

impl AuthInfo {
    pub fn new(
        hash: Vec<u8>,
        account_id: AccountId,
        blocknumber: BlockNumber,
        description: Vec<u8>,
        orgcode: Vec<u8>,
    ) -> (r: Self)
        ensures
            r.hash == hash,
            r.account_id == account_id,
            r.blocknumber == blocknumber,
            r.description == description,
            r.orgcode == orgcode,
    {
        Self { hash, account_id, blocknumber, description, orgcode }
    }
}

/// The notification deposited on the host's event sink after each successful
/// operation; exactly one is emitted per success.
#[derive(Debug)]
pub enum Event {
    /// A rights claim succeeded: the claiming account, the content hash, and
    /// the code of the sponsoring organization.
    AuthRightSuccessed(AccountId, Vec<u8>, Vec<u8>),
    /// A registration succeeded: the registering account, the organization
    /// code, and the organization name.
    OrgRegSuccess(AccountId, Vec<u8>, Vec<u8>),
    /// An approval change succeeded: the privileged account, the organization
    /// code, and the newly stored status.
    OrgApproveSuccess(AccountId, Vec<u8>, bool),
}

/// The closed error taxonomy of the three operations; every failure is one of
/// these, surfaced verbatim to the caller, and leaves the state unchanged.
#[derive(Clone, Copy, Debug, PartialEq, Eq, Structural)]
pub enum Error {
    /// An approval or a claim named an organization code that is not registered.
    NoSuchOrg,
    /// A registration named an organization code that is already registered.
    OrgAlreadyExist,
    /// A claim named an organization whose status is not approved.
    StatusNotAllow,
    /// A claim named a content hash that is already claimed.
    HashAlreadyExist,
}

} // verus!
