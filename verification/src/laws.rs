//! Laws that relate the operations to each other, proved from the
//! operation contracts alone.

use crate::addr::{CanonicalAddr, HumanAddr};
use crate::contract::{issue_applied, issue_outcome, register_outcome};
use crate::msg::ContractError;
use crate::state::{sum_counts, InstituteDetails, State};
use crate::str_map::lemma_map_of_len;
use vstd::prelude::*;

verus! {

/// A register request from any identity other than the owner is rejected as
/// unauthorized and leaves the store — the institutes map included —
/// exactly as it was.
pub proof fn lemma_register_unauthorized(
    pre: State,
    post: State,
    r: Result<(), ContractError>,
    signer: Seq<u8>,
    name: String,
    year: u128,
    website: String,
    email: String,
    location: String,
    wallet_address: HumanAddr,
    wallet_canonical: Option<CanonicalAddr>,
)
    requires
        register_outcome(
            pre,
            post,
            r,
            signer,
            name,
            year,
            website,
            email,
            location,
            wallet_address,
            wallet_canonical,
        ),
        signer != pre.owner@,
    ensures
        r == Err::<(), ContractError>(ContractError::Unauthorized),
        post == pre,
        post.institutes@ == pre.institutes@,
{
}

/// Registering the same wallet address twice leaves exactly one institute
/// record for it, the record of the second registration: the store's
/// institute map is what a single registration of the second record would
/// have left, and its size grew by at most the one key.
pub proof fn lemma_register_overwrites(
    s0: State,
    s1: State,
    s2: State,
    r1: Result<(), ContractError>,
    r2: Result<(), ContractError>,
    signer: Seq<u8>,
    name1: String,
    year1: u128,
    website1: String,
    email1: String,
    location1: String,
    wc1: CanonicalAddr,
    name2: String,
    year2: u128,
    website2: String,
    email2: String,
    location2: String,
    wc2: CanonicalAddr,
    wallet_address: HumanAddr,
)
    requires
        s0.institutes.inv(),
        signer == s0.owner@,
        register_outcome(
            s0,
            s1,
            r1,
            signer,
            name1,
            year1,
            website1,
            email1,
            location1,
            wallet_address,
            Some(wc1),
        ),
        register_outcome(
            s1,
            s2,
            r2,
            signer,
            name2,
            year2,
            website2,
            email2,
            location2,
            wallet_address,
            Some(wc2),
        ),
    ensures
        s2.institutes@ == s0.institutes@.insert(
            wallet_address@,
            (InstituteDetails {
                name: name2,
                year: year2,
                website: website2,
                email: email2,
                location: location2,
                wallet_address: wc2,
            }),
        ),
        s0.institutes@.contains_key(wallet_address@) ==> s2.institutes@.dom().len()
            == s0.institutes@.dom().len(),
        !s0.institutes@.contains_key(wallet_address@) ==> s2.institutes@.dom().len()
            == s0.institutes@.dom().len() + 1,
{
    assert(s1.owner == s0.owner);
    assert(s2.institutes@ =~= s0.institutes@.insert(
        wallet_address@,
        (InstituteDetails {
            name: name2,
            year: year2,
            website: website2,
            email: email2,
            location: location2,
            wallet_address: wc2,
        }),
    ));
    lemma_map_of_len(s0.institutes.kv());
    assert(s2.institutes@.dom() =~= s0.institutes@.dom().insert(wallet_address@));
}

/// An issue request whose signer has no institute record — with both
/// address conversions delivered — is rejected with the domain error and
/// changes nothing: not the issuance count, not the users map, not the
/// hashes map.
pub proof fn lemma_issue_unregistered(
    pre: State,
    post: State,
    r: Result<(), ContractError>,
    signer_human: HumanAddr,
    user_canonical: CanonicalAddr,
    name: Seq<char>,
    join_date: Seq<char>,
    end_date: Seq<char>,
    domain: Seq<char>,
    holder: Seq<char>,
)
    requires
        issue_outcome(
            pre,
            post,
            r,
            Some(signer_human),
            Some(user_canonical),
            name,
            join_date,
            end_date,
            domain,
            holder,
        ),
        !pre.institutes@.contains_key(signer_human@),
    ensures
        r == Err::<(), ContractError>(ContractError::NotRegistered),
        post == pre,
        post.count == pre.count,
        post.users == pre.users,
        post.hashes == pre.hashes,
{
}

/// After a successful issuance with retrieval key `h`, the record the
/// global hash map holds under `h` and the record the holder's own map
/// holds under `h` have the same contents.
pub proof fn lemma_dual_write(
    pre: State,
    post: State,
    signer_key: Seq<char>,
    name: Seq<char>,
    join_date: Seq<char>,
    end_date: Seq<char>,
    domain: Seq<char>,
    holder: Seq<char>,
    holder_canonical: Seq<u8>,
    h: Seq<char>,
)
    requires
        issue_applied(
            pre,
            post,
            signer_key,
            name,
            join_date,
            end_date,
            domain,
            holder,
            holder_canonical,
            h,
        ),
    ensures
        post.hashes.deep_view().contains_key(h),
        post.users.deep_view().contains_key(holder),
        post.users.deep_view()[holder].details.contains_key(h),
        post.hashes.deep_view()[h] == post.users.deep_view()[holder].details[h],
{
}

/// While the store is well-formed, the issuance count equals the number of
/// entries of the global hash map, which equals the total of the per-user
/// certificate counts.
pub proof fn lemma_count_invariant(s: State)
    requires
        s.wf(),
    ensures
        s.count as int == s.hashes@.dom().len(),
        s.count as int == sum_counts(s.users.kv()),
{
}

} // verus!
