//! The domain operations: constructing the store, registering an institute,
//! issuing a certificate, and the read-only queries. Each mutation takes the
//! store exclusively and either applies all of its effects or returns a
//! rejection with the store untouched. The host converts addresses between
//! their two forms; each operation receives the outcomes of the conversions
//! it needs and decides in the documented order.

use crate::addr::{canonical_addr_eq, CanonicalAddr, HumanAddr};
use crate::msg::{
    ContractError, CountResponse, HandleMsg, HashCertResponse, QueryAnswer, QueryMsg,
    UserCertsResponse,
};
use crate::state::{
    clone_details, sum_counts, CertContents, CertDetails, InstituteDetails, State, User,
    UserContents,
};
use crate::state::{lemma_sum_counts_push, lemma_sum_counts_update};
use crate::str_map::{
    lemma_deep_view_facts, lemma_deep_view_insert, lemma_map_of_index, StrMap,
};
use vstd::prelude::*;

verus! {

/// Relies on rand::random: a fresh value of the requested type. Nothing is
/// promised of which value comes back.
pub assume_specification<T>[ rand::random::<T> ]() -> (r: T)
    where
        rand::distributions::Standard: rand::distributions::Distribution<T>,
;

/// Relies on String::push: appends the given character to the end of the
/// string.
pub assume_specification[ String::push ](s: &mut String, c: char)
    ensures
        final(s)@ == old(s)@.push(c),
;

/// Whether a character is in the range the key generator draws from: the 96
/// printable ASCII values starting at 0x20.
pub open spec fn printable(c: char) -> bool {
    0x20 <= (c as u32) && (c as u32) < 0x80
}

/// A fresh 4-character retrieval key, each character drawn from the 96
/// printable ASCII values starting at 0x20. No uniqueness is checked against
/// keys already in use.
pub fn rand_string() -> (r: String)
    ensures
        r@.len() == 4,
        forall|i: int| 0 <= i < 4 ==> printable(#[trigger] r@[i]),
{
    let mut s = String::new();
    let mut i: usize = 0;
    while i < 4
        invariant
            i <= 4,
            s@.len() == i,
            forall|j: int| 0 <= j < i ==> printable(#[trigger] s@[j]),
        decreases 4 - i,
    {
        let b: u8 = rand::random::<u8>();
        let c: char = (0x20u8 + (b % 96u8)) as char;
        s.push(c);
        i += 1;
    }
    s
}

/// Constructs a fresh store owned by the caller of the constructing
/// transaction: empty maps and a zero issuance count.
pub fn init(signer: CanonicalAddr) -> (s: State)
    ensures
        s.owner == signer,
        s.count == 0,
        s.users@ == Map::<Seq<char>, User>::empty(),
        s.hashes@ == Map::<Seq<char>, CertDetails>::empty(),
        s.institutes@ == Map::<Seq<char>, InstituteDetails>::empty(),
        s.wf(),
{
    let s = State {
        users: StrMap::new(),
        hashes: StrMap::new(),
        institutes: StrMap::new(),
        owner: signer,
        count: 0,
    };
    proof {
        assert(s.hashes@.dom() =~= Set::<Seq<char>>::empty());
    }
    s
}

/// What `add_institute` leaves behind, for every combination of caller and
/// conversion outcome: only the owner may register; a failed conversion of
/// the wallet address is reported as such; on success the institute record
/// built from the request is inserted under the wallet address — replacing
/// any record that held that key — and nothing else changes.
pub open spec fn register_outcome(
    pre: State,
    post: State,
    r: Result<(), ContractError>,
    signer: Seq<u8>,
    name: String,
    year: u128,
    website: String,
    email: String,
    location: String,
    wallet_address: HumanAddr,
    wallet_canonical: Option<CanonicalAddr>,
) -> bool {
    if signer != pre.owner@ {
        r == Err::<(), ContractError>(ContractError::Unauthorized) && post == pre
    } else {
        match wallet_canonical {
            Option::None => r == Err::<(), ContractError>(ContractError::MalformedAddress) && post
                == pre,
            Option::Some(wc) => {
                &&& r == Ok::<(), ContractError>(())
                &&& post.institutes@ == pre.institutes@.insert(
                    wallet_address@,
                    (InstituteDetails { name, year, website, email, location, wallet_address: wc }),
                )
                &&& post.users == pre.users
                &&& post.hashes == pre.hashes
                &&& post.owner == pre.owner
                &&& post.count == pre.count
                &&& pre.maps_inv() ==> post.maps_inv()
                &&& pre.wf() ==> post.wf()
            },
        }
    }
}

/// Registers an institute. Only the store owner may do so; the record is
/// keyed by the wallet address's human-readable string and silently replaces
/// a record registered under the same address before. `wallet_canonical` is
/// the host's conversion of `wallet_address` to canonical form, `None` where
/// the conversion failed.
pub fn add_institute(
    state: &mut State,
    signer: &CanonicalAddr,
    name: String,
    year: u128,
    website: String,
    email: String,
    location: String,
    wallet_address: HumanAddr,
    wallet_canonical: Option<CanonicalAddr>,
) -> (r: Result<(), ContractError>)
    requires
        old(state).institutes.inv(),
    ensures
        register_outcome(
            *old(state),
            *final(state),
            r,
            signer@,
            name,
            year,
            website,
            email,
            location,
            wallet_address,
            wallet_canonical,
        ),
{
    if !canonical_addr_eq(signer, &state.owner) {
        return Err(ContractError::Unauthorized);
    }
    let wc: CanonicalAddr = match wallet_canonical {
        Option::Some(wc) => wc,
        Option::None => {
            return Err(ContractError::MalformedAddress);
        },
    };
    let institute = InstituteDetails { name, year, website, email, location, wallet_address: wc };
    state.institutes.insert(wallet_address.text, institute);
    proof {
        if old(state).wf() {
            crate::state::lemma_consistent_same_core(*old(state), *state);
        }
    }
    Ok(())
}

/// The exact effect of one successful issuance with retrieval key `h`,
/// signed by the institute registered under `signer_key`: the certificate
/// record — built from the request, the institute's stored name and
/// canonical address, the holder's canonical address and the key — is
/// stored under the key both in the global hash map and in the holder's
/// record, whose count grows by one (a holder with no record gets a fresh
/// one with count 1), and the issuance count grows by one.
pub open spec fn issue_applied(
    pre: State,
    post: State,
    signer_key: Seq<char>,
    name: Seq<char>,
    join_date: Seq<char>,
    end_date: Seq<char>,
    domain: Seq<char>,
    holder: Seq<char>,
    holder_canonical: Seq<u8>,
    h: Seq<char>,
) -> bool {
    let inst = pre.institutes@[signer_key];
    let cert = CertContents {
        name,
        institute: inst.name@,
        join_date,
        end_date,
        domain,
        hash: h,
        user_address: holder_canonical,
        institute_address: inst.wallet_address@,
    };
    let prev = pre.users.deep_view();
    let new_user = if prev.contains_key(holder) {
        UserContents {
            count: prev[holder].count + 1,
            details: prev[holder].details.insert(h, cert),
        }
    } else {
        UserContents { count: 1, details: Map::<Seq<char>, CertContents>::empty().insert(h, cert) }
    };
    &&& post.users.deep_view() == prev.insert(holder, new_user)
    &&& post.hashes.deep_view() == pre.hashes.deep_view().insert(h, cert)
    &&& post.institutes == pre.institutes
    &&& post.owner == pre.owner
    &&& post.count as int == pre.count as int + 1
}

/// What `store_certificate` leaves behind, for every combination of
/// conversion outcomes: a failed conversion of the signer or of the holder
/// address is reported as such; a signer with no institute record is
/// rejected and nothing changes; otherwise the issuance goes through with a
/// fresh 4-character key, and — whenever that key was not already in use —
/// the store is well-formed again afterwards.
pub open spec fn issue_outcome(
    pre: State,
    post: State,
    r: Result<(), ContractError>,
    signer_human: Option<HumanAddr>,
    user_canonical: Option<CanonicalAddr>,
    name: Seq<char>,
    join_date: Seq<char>,
    end_date: Seq<char>,
    domain: Seq<char>,
    holder: Seq<char>,
) -> bool {
    match (signer_human, user_canonical) {
        (Option::None, _) => r == Err::<(), ContractError>(ContractError::MalformedAddress) && post
            == pre,
        (Option::Some(_), Option::None) => r == Err::<(), ContractError>(
            ContractError::MalformedAddress,
        ) && post == pre,
        (Option::Some(sh), Option::Some(uc)) => {
            if !pre.institutes@.contains_key(sh@) {
                r == Err::<(), ContractError>(ContractError::NotRegistered) && post == pre
            } else {
                &&& r == Ok::<(), ContractError>(())
                &&& post.maps_inv()
                &&& exists|h: Seq<char>|
                    {
                        &&& #[trigger] issue_applied(
                            pre,
                            post,
                            sh@,
                            name,
                            join_date,
                            end_date,
                            domain,
                            holder,
                            uc@,
                            h,
                        )
                        &&& h.len() == 4
                        &&& forall|i: int| 0 <= i < 4 ==> printable(#[trigger] h[i])
                        &&& !pre.hashes@.contains_key(h) ==> post.wf()
                    }
            }
        },
    }
}

/// Issues a certificate. The signer, converted to human-readable form by
/// the host and handed in as `signer_human`, must be a registered
/// institute; `user_canonical` is the host's conversion of the holder
/// `address`. All effects of a successful issuance happen together;
/// a rejected request changes nothing.
pub fn store_certificate(
    state: &mut State,
    signer_human: Option<HumanAddr>,
    name: String,
    join_date: String,
    end_date: String,
    domain: String,
    address: HumanAddr,
    user_canonical: Option<CanonicalAddr>,
) -> (r: Result<(), ContractError>)
    requires
        old(state).wf(),
    ensures
        issue_outcome(
            *old(state),
            *final(state),
            r,
            signer_human,
            user_canonical,
            name@,
            join_date@,
            end_date@,
            domain@,
            address@,
        ),
{
    let ghost pre = *old(state);
    let ins_human: HumanAddr = match signer_human {
        Option::Some(h) => h,
        Option::None => {
            return Err(ContractError::MalformedAddress);
        },
    };
    let user_addr: CanonicalAddr = match user_canonical {
        Option::Some(c) => c,
        Option::None => {
            return Err(ContractError::MalformedAddress);
        },
    };
    let (inst_name, inst_wallet): (String, CanonicalAddr) = match state.institutes.get(
        &ins_human.text,
    ) {
        Option::Some(inst) => (inst.name.clone(), inst.wallet_address.clone()),
        Option::None => {
            return Err(ContractError::NotRegistered);
        },
    };
    let ghost inst0 = pre.institutes@[ins_human@];
    let hlen: usize = state.hashes.len();
    proof {
        assert(pre.count < u128::MAX);
    }
    let hash: String = rand_string();
    let hash_user_key: String = hash.clone();
    let hash_cert_field: String = hash.clone();
    let certificate = CertDetails {
        name,
        institute: inst_name,
        join_date,
        end_date,
        domain,
        hash: hash_cert_field,
        user_address: user_addr,
        institute_address: inst_wallet,
    };
    let cert_for_user: CertDetails = certificate.clone();
    let ghost certv = certificate.deep_view();
    let user_key: String = address.text;
    let new_user: User = match state.users.get(&user_key) {
        Option::Some(u) => {
            let dlen: usize = u.details.len();
            let mut d: StrMap<CertDetails> = clone_details(&u.details);
            let ghost d0 = d;
            d.insert(hash_user_key, cert_for_user);
            proof {
                lemma_deep_view_insert(d0, d, hash@, cert_for_user);
                lemma_deep_view_facts(d0);
                lemma_deep_view_facts(pre.users@[user_key@].details);
            }
            User { count: u.count + 1, details: d }
        },
        Option::None => {
            let mut d: StrMap<CertDetails> = StrMap::new();
            let ghost d0 = d;
            d.insert(hash_user_key, cert_for_user);
            proof {
                lemma_deep_view_insert(d0, d, hash@, cert_for_user);
                assert(d0.deep_view() =~= Map::<Seq<char>, CertContents>::empty());
            }
            User { count: 1, details: d }
        },
    };
    let ghost new_user_g = new_user;
    state.users.insert(user_key, new_user);
    proof {
        lemma_deep_view_insert(pre.users, state.users, user_key@, new_user_g);
    }
    let ghost cert_g = certificate;
    state.hashes.insert(hash, certificate);
    proof {
        lemma_deep_view_insert(pre.hashes, state.hashes, hash@, cert_g);
    }
    state.count = state.count + 1;
    proof {
        let post = *state;
        lemma_deep_view_facts(pre.users);
        lemma_deep_view_facts(pre.hashes);
        lemma_deep_view_facts(post.users);
        lemma_deep_view_facts(post.hashes);
        assert(certv =~= (CertContents {
            name: name@,
            institute: inst0.name@,
            join_date: join_date@,
            end_date: end_date@,
            domain: domain@,
            hash: hash@,
            user_address: user_addr@,
            institute_address: inst0.wallet_address@,
        }));
        let prev = pre.users.deep_view();
        let expect_user = if prev.contains_key(user_key@) {
            UserContents {
                count: prev[user_key@].count + 1,
                details: prev[user_key@].details.insert(hash@, certv),
            }
        } else {
            UserContents {
                count: 1,
                details: Map::<Seq<char>, CertContents>::empty().insert(hash@, certv),
            }
        };
        assert(new_user_g.deep_view() =~= expect_user);
        assert(post.users.deep_view() =~= prev.insert(user_key@, expect_user));
        assert(issue_applied(
            pre,
            post,
            ins_human@,
            name@,
            join_date@,
            end_date@,
            domain@,
            user_key@,
            user_addr@,
            hash@,
        ));
        assert forall|k: Seq<char>| post.users@.contains_key(k) implies (#[trigger] post.users@[k]).details.inv() by {
            if k == user_key@ {
                assert(post.users@[k] == new_user_g);
            } else {
                assert(post.users@[k] == pre.users@[k]);
                assert(pre.users@.contains_key(k));
            }
        }
        assert(post.maps_inv());
        if !pre.hashes@.contains_key(hash@) {
            assert(post.hashes@.dom() =~= pre.hashes@.dom().insert(hash@));
            assert(post.count as int == post.hashes@.dom().len());
            if pre.users@.contains_key(user_key@) {
                let i = choose|i: int|
                    0 <= i < pre.users.kv().len() && (#[trigger] pre.users.kv()[i]).0@ == user_key@
                        && post.users.kv() == pre.users.kv().update(i, (user_key, new_user_g));
                lemma_map_of_index(pre.users.kv(), i);
                lemma_sum_counts_update(pre.users.kv(), i, (user_key, new_user_g));
                assert(pre.users.kv()[i].1 == pre.users@[user_key@]);
                assert(post.count as int == sum_counts(post.users.kv()));
            } else {
                assert(post.users.kv() == pre.users.kv().push((user_key, new_user_g)));
                lemma_sum_counts_push(pre.users.kv(), (user_key, new_user_g));
                assert(post.count as int == sum_counts(post.users.kv()));
            }
            if pre.users@.contains_key(user_key@) {
                if pre.users@[user_key@].details@.contains_key(hash@) {
                    assert(pre.users@[user_key@].details@.dom().contains(hash@));
                    assert(pre.hashes@.contains_key(hash@));
                }
                assert(!pre.users@[user_key@].details@.contains_key(hash@));
                assert(new_user_g.details@.dom() =~= pre.users@[user_key@].details@.dom().insert(
                    hash@,
                ));
            } else {
                assert(new_user_g.details@.dom() =~= Set::<Seq<char>>::empty().insert(hash@));
            }
            assert forall|k: Seq<char>| post.users@.contains_key(k) implies (#[trigger] post.users@[k]).wf() by {
                if k == user_key@ {
                    assert(post.users@[k] == new_user_g);
                } else {
                    assert(post.users@[k] == pre.users@[k]);
                    assert(pre.users@.contains_key(k));
                }
            }
            assert forall|k: Seq<char>, h2: Seq<char>|
                #![trigger post.users@[k].details@.dom().contains(h2)]
                post.users@.contains_key(k) && post.users@[k].details@.contains_key(h2)
                    implies post.hashes@.contains_key(h2) && post.hashes@[h2].deep_view()
                    == post.users@[k].details@[h2].deep_view() by {
                lemma_deep_view_facts(post.users@[k].details);
                if k == user_key@ {
                    assert(post.users@[k] == new_user_g);
                    lemma_deep_view_facts(new_user_g.details);
                    if h2 == hash@ {
                        assert(post.hashes@[h2] == cert_g);
                        assert(new_user_g.details@[h2].deep_view() == certv);
                    } else {
                        assert(pre.users@.contains_key(user_key@));
                        let pu = pre.users@[user_key@];
                        lemma_deep_view_facts(pu.details);
                        assert(pu.details@.contains_key(h2));
                        assert(pu.details@.dom().contains(h2));
                        assert(pre.hashes@.contains_key(h2));
                        assert(post.hashes@[h2] == pre.hashes@[h2]);
                        assert(new_user_g.details.deep_view()[h2] == pu.details.deep_view()[h2]);
                        assert(post.users@[k].details@[h2].deep_view() == pu.details@[h2].deep_view());
                    }
                } else {
                    assert(post.users@[k] == pre.users@[k]);
                    assert(pre.users@.contains_key(k));
                    lemma_deep_view_facts(pre.users@[k].details);
                    assert(pre.users@[k].details@.dom().contains(h2));
                    assert(pre.hashes@.contains_key(h2));
                    assert(h2 != hash@);
                    assert(post.hashes@[h2] == pre.hashes@[h2]);
                }
            }
            assert(post.consistent());
            assert(post.wf());
        }
    }
    Ok(())
}

/// Dispatches a mutation request to the operation it names. `signer` is the
/// transaction signer; `signer_human` is the host's conversion of the
/// signer to human-readable form, and `msg_addr_canonical` the host's
/// conversion of the address carried by the request — the wallet address of
/// a register request, the holder address of an issue request.
pub fn handle(
    state: &mut State,
    signer: &CanonicalAddr,
    signer_human: Option<HumanAddr>,
    msg_addr_canonical: Option<CanonicalAddr>,
    msg: HandleMsg,
) -> (r: Result<(), ContractError>)
    requires
        old(state).wf(),
    ensures
        match msg {
            HandleMsg::AddInstitute { name, year, website, email, location, wallet_address } => register_outcome(
                *old(state),
                *final(state),
                r,
                signer@,
                name,
                year,
                website,
                email,
                location,
                wallet_address,
                msg_addr_canonical,
            ),
            HandleMsg::StoreCertificate { name, join_date, end_date, domain, address } => issue_outcome(
                *old(state),
                *final(state),
                r,
                signer_human,
                msg_addr_canonical,
                name@,
                join_date@,
                end_date@,
                domain@,
                address@,
            ),
        },
{
    match msg {
        HandleMsg::AddInstitute { name, year, website, email, location, wallet_address } => {
            add_institute(
                state,
                signer,
                name,
                year,
                website,
                email,
                location,
                wallet_address,
                msg_addr_canonical,
            )
        },
        HandleMsg::StoreCertificate { name, join_date, end_date, domain, address } => {
            store_certificate(
                state,
                signer_human,
                name,
                join_date,
                end_date,
                domain,
                address,
                msg_addr_canonical,
            )
        },
    }
}

/// The current issuance count.
pub fn query_count(state: &State) -> (r: CountResponse)
    ensures
        r.count == state.count,
{
    CountResponse { count: state.count }
}

/// The certificate stored under a hash, or `NotFound` if the hash holds no
/// record. Queries have no authorization check.
pub fn query_certificate_by_hash(state: &State, hash: &String) -> (r: Result<
    HashCertResponse,
    ContractError,
>)
    requires
        state.maps_inv(),
    ensures
        state.hashes@.contains_key(hash@) ==> (r matches Ok(resp) && resp.certificate.deep_view()
            == state.hashes.deep_view()[hash@]),
        !state.hashes@.contains_key(hash@) ==> r == Err::<HashCertResponse, ContractError>(
            ContractError::NotFound,
        ),
{
    match state.hashes.get(hash) {
        Option::Some(c) => {
            let resp = HashCertResponse { certificate: c.clone() };
            proof {
                lemma_deep_view_facts(state.hashes);
            }
            Ok(resp)
        },
        Option::None => Err(ContractError::NotFound),
    }
}

/// A user's record — count and all certificate details — or `NotFound` if
/// the address holds no record. Queries have no authorization check.
pub fn query_certificates_by_user(state: &State, user: &HumanAddr) -> (r: Result<
    UserCertsResponse,
    ContractError,
>)
    requires
        state.maps_inv(),
    ensures
        state.users@.contains_key(user@) ==> (r matches Ok(resp) && resp.certificates.deep_view()
            == state.users.deep_view()[user@]),
        !state.users@.contains_key(user@) ==> r == Err::<UserCertsResponse, ContractError>(
            ContractError::NotFound,
        ),
{
    match state.users.get(&user.text) {
        Option::Some(u) => {
            let d: StrMap<CertDetails> = clone_details(&u.details);
            let copied = User { count: u.count, details: d };
            proof {
                lemma_deep_view_facts(state.users);
                assert(copied.deep_view() =~= state.users.deep_view()[user@]);
            }
            Ok(UserCertsResponse { certificates: copied })
        },
        Option::None => Err(ContractError::NotFound),
    }
}

/// Dispatches a read-only request to the projection it names.
pub fn query(state: &State, msg: QueryMsg) -> (r: Result<QueryAnswer, ContractError>)
    requires
        state.maps_inv(),
    ensures
        match msg {
            QueryMsg::GetCount {  } => (r matches Ok(a) && a matches QueryAnswer::Count(c)
                && c.count == state.count),
            QueryMsg::GetCertificateByHash { hash } => match r {
                Result::Ok(a) => state.hashes@.contains_key(hash@) && (a matches QueryAnswer::Certificate(resp)
                    && resp.certificate.deep_view() == state.hashes.deep_view()[hash@]),
                Result::Err(e) => e == ContractError::NotFound && !state.hashes@.contains_key(hash@),
            },
            QueryMsg::GetUserCertificates { user } => match r {
                Result::Ok(a) => state.users@.contains_key(user@) && (a matches QueryAnswer::UserCertificates(resp)
                    && resp.certificates.deep_view() == state.users.deep_view()[user@]),
                Result::Err(e) => e == ContractError::NotFound && !state.users@.contains_key(user@),
            },
        },
{
    match msg {
        QueryMsg::GetCount {  } => Ok(QueryAnswer::Count(query_count(state))),
        QueryMsg::GetCertificateByHash { hash } => match query_certificate_by_hash(state, &hash) {
            Result::Ok(resp) => Ok(QueryAnswer::Certificate(resp)),
            Result::Err(e) => Err(e),
        },
        QueryMsg::GetUserCertificates { user } => match query_certificates_by_user(state, &user) {
            Result::Ok(resp) => Ok(QueryAnswer::UserCertificates(resp)),
            Result::Err(e) => Err(e),
        },
    }
}


} // verus!
