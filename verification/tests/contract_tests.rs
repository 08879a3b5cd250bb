use cert_ledger::addr::{CanonicalAddr, HumanAddr};
use cert_ledger::contract::{
    add_institute, handle, init, query, query_certificate_by_hash, query_certificates_by_user,
    query_count, rand_string, store_certificate,
};
use cert_ledger::msg::{ContractError, HandleMsg, QueryAnswer, QueryMsg};
use cert_ledger::state::State;
use cert_ledger::str_map::StrMap;

fn human(s: &str) -> HumanAddr {
    HumanAddr { text: s.to_string() }
}

fn canon(s: &str) -> CanonicalAddr {
    CanonicalAddr { bytes: s.as_bytes().to_vec() }
}

fn register(
    state: &mut State,
    signer: &CanonicalAddr,
    name: &str,
    wallet: &str,
) -> Result<(), ContractError> {
    add_institute(
        state,
        signer,
        name.to_string(),
        1990,
        "https://example.edu".to_string(),
        "mail@example.edu".to_string(),
        "Springfield".to_string(),
        human(wallet),
        Some(canon(wallet)),
    )
}

fn issue(
    state: &mut State,
    signer: &str,
    holder_name: &str,
    domain: &str,
    holder: &str,
) -> Result<(), ContractError> {
    store_certificate(
        state,
        Some(human(signer)),
        holder_name.to_string(),
        "2021-01-01".to_string(),
        "2024-06-30".to_string(),
        domain.to_string(),
        human(holder),
        Some(canon(holder)),
    )
}

#[test]
fn proper_initialization() {
    let state = init(canon("creator"));
    assert_eq!(state.owner, canon("creator"));

    let res = query(&state, QueryMsg::GetCount {}).unwrap();
    match res {
        QueryAnswer::Count(value) => assert_eq!(0, value.count),
        _ => panic!("wrong answer kind"),
    }
}

#[test]
fn register_by_owner_succeeds() {
    let mut state = init(canon("owner"));
    register(&mut state, &canon("owner"), "Acme U", "inst-1").unwrap();
    assert_eq!(state.institutes.len(), 1);
    let rec = state.institutes.get(&"inst-1".to_string()).unwrap();
    assert_eq!(rec.name, "Acme U");
    assert_eq!(rec.year, 1990);
    assert_eq!(rec.wallet_address, canon("inst-1"));
}

#[test]
fn register_by_other_identity_rejected() {
    let mut state = init(canon("owner"));
    register(&mut state, &canon("owner"), "Acme U", "inst-1").unwrap();
    let r = register(&mut state, &canon("intruder"), "Evil U", "inst-2");
    assert_eq!(r, Err(ContractError::Unauthorized));
    assert_eq!(state.institutes.len(), 1);
    assert!(state.institutes.get(&"inst-2".to_string()).is_none());
    assert_eq!(state.institutes.get(&"inst-1".to_string()).unwrap().name, "Acme U");
}

#[test]
fn register_same_wallet_twice_overwrites() {
    let mut state = init(canon("owner"));
    register(&mut state, &canon("owner"), "First U", "inst-1").unwrap();
    register(&mut state, &canon("owner"), "Second U", "inst-1").unwrap();
    assert_eq!(state.institutes.len(), 1);
    assert_eq!(state.institutes.get(&"inst-1".to_string()).unwrap().name, "Second U");
}

#[test]
fn register_malformed_wallet_rejected() {
    let mut state = init(canon("owner"));
    let r = add_institute(
        &mut state,
        &canon("owner"),
        "Acme U".to_string(),
        1990,
        "w".to_string(),
        "e".to_string(),
        "l".to_string(),
        human("inst-1"),
        None,
    );
    assert_eq!(r, Err(ContractError::MalformedAddress));
    assert_eq!(state.institutes.len(), 0);
}

#[test]
fn authorization_checked_before_wallet_conversion() {
    let mut state = init(canon("owner"));
    let r = add_institute(
        &mut state,
        &canon("intruder"),
        "Acme U".to_string(),
        1990,
        "w".to_string(),
        "e".to_string(),
        "l".to_string(),
        human("inst-1"),
        None,
    );
    assert_eq!(r, Err(ContractError::Unauthorized));
}

#[test]
fn issue_requires_registration() {
    let mut state = init(canon("owner"));
    let before = query_count(&state).count;
    let r = issue(&mut state, "nobody", "Holder", "CS", "holder-1");
    assert_eq!(r, Err(ContractError::NotRegistered));
    assert_eq!(query_count(&state).count, before);
    assert_eq!(state.users.len(), 0);
    assert_eq!(state.hashes.len(), 0);
}

#[test]
fn issue_error_text_matches() {
    assert_eq!(
        ContractError::NotRegistered.message(),
        "No institute registered with signed address"
    );
}

#[test]
fn issue_and_query_scenario() {
    let mut state = init(canon("owner"));
    register(&mut state, &canon("owner"), "Acme U", "inst-1").unwrap();
    issue(&mut state, "inst-1", "Holder H", "CS", "holder-1").unwrap();

    assert_eq!(query_count(&state).count, 1);

    let user_resp = query_certificates_by_user(&state, &human("holder-1")).unwrap();
    assert_eq!(user_resp.certificates.count, 1);
    assert_eq!(user_resp.certificates.details.len(), 1);
    let (hash, cert) = {
        let p = user_resp.certificates.details.pair_at(0);
        (p.0.clone(), p.1.clone())
    };
    assert_eq!(cert.institute, "Acme U");
    assert_eq!(cert.name, "Holder H");
    assert_eq!(cert.domain, "CS");
    assert_eq!(cert.hash, hash);
    assert_eq!(cert.user_address, canon("holder-1"));
    assert_eq!(cert.institute_address, canon("inst-1"));

    let by_hash = query_certificate_by_hash(&state, &hash).unwrap();
    assert_eq!(by_hash.certificate, cert);
}

#[test]
fn rejected_issue_leaves_count_unchanged() {
    let mut state = init(canon("owner"));
    register(&mut state, &canon("owner"), "Acme U", "inst-1").unwrap();
    issue(&mut state, "inst-1", "Holder H", "CS", "holder-1").unwrap();
    let before = query_count(&state).count;
    let r = issue(&mut state, "never-registered", "Other", "Math", "holder-2");
    assert_eq!(r, Err(ContractError::NotRegistered));
    assert_eq!(query_count(&state).count, before);
}

#[test]
fn issue_malformed_addresses_rejected() {
    let mut state = init(canon("owner"));
    register(&mut state, &canon("owner"), "Acme U", "inst-1").unwrap();
    let r = store_certificate(
        &mut state,
        None,
        "Holder".to_string(),
        "j".to_string(),
        "e".to_string(),
        "CS".to_string(),
        human("holder-1"),
        Some(canon("holder-1")),
    );
    assert_eq!(r, Err(ContractError::MalformedAddress));
    let r = store_certificate(
        &mut state,
        Some(human("inst-1")),
        "Holder".to_string(),
        "j".to_string(),
        "e".to_string(),
        "CS".to_string(),
        human("holder-1"),
        None,
    );
    assert_eq!(r, Err(ContractError::MalformedAddress));
    assert_eq!(query_count(&state).count, 0);
}

#[test]
fn counter_tracks_issuances() {
    let mut state = init(canon("owner"));
    register(&mut state, &canon("owner"), "Acme U", "inst-1").unwrap();
    issue(&mut state, "inst-1", "A", "CS", "holder-1").unwrap();
    issue(&mut state, "inst-1", "B", "Math", "holder-1").unwrap();
    issue(&mut state, "inst-1", "C", "Art", "holder-2").unwrap();

    assert_eq!(query_count(&state).count, 3);
    assert_eq!(state.hashes.len(), 3);
    let mut total: u128 = 0;
    let mut i: usize = 0;
    while i < state.users.len() {
        total += state.users.pair_at(i).1.count;
        i += 1;
    }
    assert_eq!(total, 3);
    let u1 = query_certificates_by_user(&state, &human("holder-1")).unwrap();
    assert_eq!(u1.certificates.count, 2);
    let u2 = query_certificates_by_user(&state, &human("holder-2")).unwrap();
    assert_eq!(u2.certificates.count, 1);
}

#[test]
fn query_absent_hash_is_not_found() {
    let state = init(canon("owner"));
    let r = query_certificate_by_hash(&state, &"no-such-hash".to_string());
    assert!(matches!(r, Err(ContractError::NotFound)));
}

#[test]
fn query_absent_user_is_not_found() {
    let state = init(canon("owner"));
    let r = query_certificates_by_user(&state, &human("nobody"));
    assert!(matches!(r, Err(ContractError::NotFound)));
}

#[test]
fn handle_dispatches_both_requests() {
    let mut state = init(canon("owner"));
    let r = handle(
        &mut state,
        &canon("owner"),
        None,
        Some(canon("inst-1")),
        HandleMsg::AddInstitute {
            name: "Acme U".to_string(),
            year: 2001,
            website: "w".to_string(),
            email: "e".to_string(),
            location: "l".to_string(),
            wallet_address: human("inst-1"),
        },
    );
    assert_eq!(r, Ok(()));
    let r = handle(
        &mut state,
        &canon("inst-1"),
        Some(human("inst-1")),
        Some(canon("holder-1")),
        HandleMsg::StoreCertificate {
            name: "Holder H".to_string(),
            join_date: "j".to_string(),
            end_date: "e".to_string(),
            domain: "CS".to_string(),
            address: human("holder-1"),
        },
    );
    assert_eq!(r, Ok(()));
    assert_eq!(query_count(&state).count, 1);
}

#[test]
fn query_dispatches_all_requests() {
    let mut state = init(canon("owner"));
    register(&mut state, &canon("owner"), "Acme U", "inst-1").unwrap();
    issue(&mut state, "inst-1", "Holder H", "CS", "holder-1").unwrap();

    match query(&state, QueryMsg::GetCount {}).unwrap() {
        QueryAnswer::Count(c) => assert_eq!(c.count, 1),
        _ => panic!("wrong answer kind"),
    }
    let user_answer = query(&state, QueryMsg::GetUserCertificates { user: human("holder-1") });
    let hash = match user_answer.unwrap() {
        QueryAnswer::UserCertificates(u) => u.certificates.details.pair_at(0).0.clone(),
        _ => panic!("wrong answer kind"),
    };
    match query(&state, QueryMsg::GetCertificateByHash { hash }).unwrap() {
        QueryAnswer::Certificate(c) => assert_eq!(c.certificate.institute, "Acme U"),
        _ => panic!("wrong answer kind"),
    }
}

#[test]
fn rand_string_is_four_printable_chars() {
    let mut round: u32 = 0;
    while round < 20 {
        let s = rand_string();
        assert_eq!(s.chars().count(), 4);
        for c in s.chars() {
            let v = c as u32;
            assert!((0x20..0x80).contains(&v));
        }
        round += 1;
    }
}

#[test]
fn str_map_overwrites_and_looks_up() {
    let mut m: StrMap<u128> = StrMap::new();
    assert_eq!(m.len(), 0);
    assert!(!m.contains_key(&"a".to_string()));
    m.insert("a".to_string(), 1);
    m.insert("b".to_string(), 2);
    assert_eq!(m.len(), 2);
    m.insert("a".to_string(), 7);
    assert_eq!(m.len(), 2);
    assert_eq!(*m.get(&"a".to_string()).unwrap(), 7);
    assert_eq!(*m.get(&"b".to_string()).unwrap(), 2);
    assert!(m.get(&"c".to_string()).is_none());
}

#[test]
fn error_messages_name_each_rejection() {
    assert_eq!(ContractError::Unauthorized.message(), "Unauthorized");
    assert_eq!(ContractError::NotFound.message(), "Not found");
    assert_eq!(ContractError::MalformedAddress.message(), "Malformed address");
}
