use vstd::prelude::*;

use crate::pallet::{
    auth_right_transition, lemma_wf_tables, org_approve_transition, org_reg_transition, Pallet,
};
use crate::records::{AccountId, BlockNumber, Error, Event};

verus! {

/// Uniqueness of registration: once a registration of `code` has succeeded,
/// a second registration attempt with the same code always fails with
/// `OrgAlreadyExist`, changes nothing, and the stored name and status are
/// still those of the first registration.
pub proof fn lemma_registration_unique(
    s0: Pallet,
    s1: Pallet,
    s2: Pallet,
    who1: AccountId,
    who2: AccountId,
    code: Seq<u8>,
    name1: Seq<u8>,
    name2: Seq<u8>,
    r1: Result<Event, Error>,
    r2: Result<Event, Error>,
)
    requires
        org_reg_transition(s0, s1, who1, code, name1, r1),
        r1 is Ok,
        org_reg_transition(s1, s2, who2, code, name2, r2),
    ensures
        r2 == Err::<Event, Error>(Error::OrgAlreadyExist),
        s2 == s1,
        s1.orgs()[code].name@ == name1,
        s1.orgs()[code].status == false,
{
    assert(!s0.orgs().contains_key(code));
    assert(s1.orgs().dom() == s0.orgs().dom().insert(code));
    assert(s1.orgs().contains_key(code));
}

/// Approval overwrites and nothing else: after any nonempty run of approvals
/// of a registered `code`, the stored status is the last one supplied, and the
/// stored code and name are what they were before the first approval.
pub proof fn lemma_approval_last_wins(
    states: Seq<Pallet>,
    whos: Seq<AccountId>,
    code: Seq<u8>,
    statuses: Seq<bool>,
    results: Seq<Result<Event, Error>>,
)
    requires
        statuses.len() >= 1,
        states.len() == statuses.len() + 1,
        whos.len() == statuses.len(),
        results.len() == statuses.len(),
        states[0].orgs().contains_key(code),
        forall|i: int|
            0 <= i < statuses.len() ==> #[trigger] org_approve_transition(
                states[i],
                states[i + 1],
                whos[i],
                code,
                statuses[i],
                results[i],
            ),
    ensures
        states.last().orgs().contains_key(code),
        states.last().orgs()[code].status == statuses.last(),
        states.last().orgs()[code].name@ == states[0].orgs()[code].name@,
        states.last().orgs()[code].code@ == states[0].orgs()[code].code@,
    decreases statuses.len(),
{
    let n = statuses.len() as int;
    let z: int = 0;
    assert(org_approve_transition(
        states[z],
        states[z + 1],
        whos[z],
        code,
        statuses[z],
        results[z],
    ));
    assert(states[1].orgs().dom() == states[0].orgs().dom());
    assert(states[1].orgs().contains_key(code));
    if n > 1 {
        let states2 = states.subrange(1, states.len() as int);
        let whos2 = whos.subrange(1, n);
        let statuses2 = statuses.subrange(1, n);
        let results2 = results.subrange(1, n);
        assert forall|i: int|
            0 <= i < statuses2.len() implies #[trigger] org_approve_transition(
            states2[i],
            states2[i + 1],
            whos2[i],
            code,
            statuses2[i],
            results2[i],
        ) by {
            let j = i + 1;
            assert(org_approve_transition(
                states[j],
                states[j + 1],
                whos[j],
                code,
                statuses[j],
                results[j],
            ));
        }
        lemma_approval_last_wins(states2, whos2, code, statuses2, results2);
        assert(states2.last() == states.last());
        assert(statuses2.last() == statuses.last());
        assert(states2[0] == states[1]);
    }
}

/// Gated claim: a claim naming an organization whose status is `false` fails
/// with `StatusNotAllow`, and neither a rights record nor a detail record for
/// the hash comes into being.
pub proof fn lemma_claim_gated(
    pre: Pallet,
    post: Pallet,
    who: AccountId,
    hash: Seq<u8>,
    description: Seq<u8>,
    code: Seq<u8>,
    height: BlockNumber,
    r: Result<Event, Error>,
)
    requires
        pre.wf(),
        auth_right_transition(pre, post, who, hash, description, code, height, r),
        !pre.rights().contains_key(hash),
        pre.orgs().contains_key(code),
        !pre.orgs()[code].status,
    ensures
        r == Err::<Event, Error>(Error::StatusNotAllow),
        post == pre,
        !post.rights().contains_key(hash),
        !post.details().contains_key(hash),
{
    lemma_wf_tables(pre);
}

/// Uniqueness of claims: after a successful claim of `hash`, any later claim
/// of the same hash, by any caller against any organization, fails with
/// `HashAlreadyExist`, and the recorded owner is still the first claimant.
pub proof fn lemma_claim_unique(
    s0: Pallet,
    s1: Pallet,
    s2: Pallet,
    who1: AccountId,
    who2: AccountId,
    hash: Seq<u8>,
    descr1: Seq<u8>,
    descr2: Seq<u8>,
    code1: Seq<u8>,
    code2: Seq<u8>,
    height1: BlockNumber,
    height2: BlockNumber,
    r1: Result<Event, Error>,
    r2: Result<Event, Error>,
)
    requires
        auth_right_transition(s0, s1, who1, hash, descr1, code1, height1, r1),
        r1 is Ok,
        auth_right_transition(s1, s2, who2, hash, descr2, code2, height2, r2),
    ensures
        r2 == Err::<Event, Error>(Error::HashAlreadyExist),
        s2 == s1,
        s1.rights()[hash] == who1,
        s2.rights()[hash] == who1,
{
    assert(s1.rights() == s0.rights().insert(hash, who1));
    assert(s1.rights().contains_key(hash));
}

/// Atomicity of claims: a failed claim leaves every table exactly as it was;
/// in particular, a hash with no record before the attempt has neither a
/// rights record nor a detail record after it.
pub proof fn lemma_claim_atomic(
    pre: Pallet,
    post: Pallet,
    who: AccountId,
    hash: Seq<u8>,
    description: Seq<u8>,
    code: Seq<u8>,
    height: BlockNumber,
    r: Result<Event, Error>,
)
    requires
        pre.wf(),
        auth_right_transition(pre, post, who, hash, description, code, height, r),
        r is Err,
    ensures
        post == pre,
        !pre.rights().contains_key(hash) ==> !post.rights().contains_key(hash)
            && !post.details().contains_key(hash),
{
    lemma_wf_tables(pre);
}

} // verus!
