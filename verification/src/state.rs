//! The store: a single aggregate holding the registered institutes, the
//! users with their certificates, the global certificate-by-hash map, the
//! owner, and the issuance count — together with the invariant that every
//! mutation must preserve.

use crate::addr::CanonicalAddr;
use crate::str_map::{
    lemma_deep_view_facts, lemma_deep_view_insert, lemma_map_of_index, lemma_map_of_push, map_of,
    StrMap,
};
use vstd::prelude::*;

verus! {

/// A certificate record, immutable once created. It is stored both in the
/// global hash map and in the holder's own record, and the two copies must
/// agree.
#[derive(Debug, PartialEq)]
pub struct CertDetails {
    pub name: String,
    pub institute: String,
    pub join_date: String,
    pub end_date: String,
    pub domain: String,
    pub hash: String,
    pub user_address: CanonicalAddr,
    pub institute_address: CanonicalAddr,
}

/// The contents of a certificate record, field by field.
#[verifier::ext_equal]
pub ghost struct CertContents {
    pub name: Seq<char>,
    pub institute: Seq<char>,
    pub join_date: Seq<char>,
    pub end_date: Seq<char>,
    pub domain: Seq<char>,
    pub hash: Seq<char>,
    pub user_address: Seq<u8>,
    pub institute_address: Seq<u8>,
}

impl DeepView for CertDetails {
    type V = CertContents;

    open spec fn deep_view(&self) -> CertContents {
        CertContents {
            name: self.name@,
            institute: self.institute@,
            join_date: self.join_date@,
            end_date: self.end_date@,
            domain: self.domain@,
            hash: self.hash@,
            user_address: self.user_address@,
            institute_address: self.institute_address@,
        }
    }
}

impl Clone for CertDetails {
    fn clone(&self) -> (r: Self)
        ensures
            r.deep_view() == self.deep_view(),
    {
        let r = CertDetails {
            name: self.name.clone(),
            institute: self.institute.clone(),
            join_date: self.join_date.clone(),
            end_date: self.end_date.clone(),
            domain: self.domain.clone(),
            hash: self.hash.clone(),
            user_address: self.user_address.clone(),
            institute_address: self.institute_address.clone(),
        };
        proof {
            assert(r.deep_view() =~= self.deep_view());
        }
        r
    }
}

/// An institute record, keyed by the institute's human-readable wallet
/// address; immutable once registered.
#[derive(Debug, PartialEq)]
pub struct InstituteDetails {
    pub name: String,
    pub year: u128,
    pub website: String,
    pub email: String,
    pub location: String,
    pub wallet_address: CanonicalAddr,
}

/// The contents of an institute record, field by field.
#[verifier::ext_equal]
pub ghost struct InstituteContents {
    pub name: Seq<char>,
    pub year: u128,
    pub website: Seq<char>,
    pub email: Seq<char>,
    pub location: Seq<char>,
    pub wallet_address: Seq<u8>,
}

impl DeepView for InstituteDetails {
    type V = InstituteContents;

    open spec fn deep_view(&self) -> InstituteContents {
        InstituteContents {
            name: self.name@,
            year: self.year,
            website: self.website@,
            email: self.email@,
            location: self.location@,
            wallet_address: self.wallet_address@,
        }
    }
}

/// A user's record: how many certificates the user holds, and the
/// certificates themselves, keyed by their hash.
#[derive(Debug)]
pub struct User {
    pub count: u128,
    pub details: StrMap<CertDetails>,
}

/// The contents of a user record.
#[verifier::ext_equal]
pub ghost struct UserContents {
    pub count: int,
    pub details: Map<Seq<char>, CertContents>,
}

impl DeepView for User {
    type V = UserContents;

    open spec fn deep_view(&self) -> UserContents {
        UserContents { count: self.count as int, details: self.details.deep_view() }
    }
}

impl User {
    /// The stored count always equals the number of stored certificates.
    pub open spec fn wf(self) -> bool {
        &&& self.details.inv()
        &&& self.details@.dom().finite()
        &&& self.count as int == self.details@.dom().len()
    }
}

/// The store aggregate. One instance exists per deployment; every mutation
/// receives it exclusively and either completes or leaves it untouched.
pub struct State {
    pub users: StrMap<User>,
    pub hashes: StrMap<CertDetails>,
    pub institutes: StrMap<InstituteDetails>,
    pub owner: CanonicalAddr,
    pub count: u128,
}

/// The total of the per-user certificate counts, over the stored user
/// entries.
pub open spec fn sum_counts(s: Seq<(String, User)>) -> int
    decreases s.len(),
{
    if s.len() == 0 {
        0
    } else {
        sum_counts(s.drop_last()) + s.last().1.count
    }
}

/// Replacing one user entry changes the total by the difference of counts.
pub proof fn lemma_sum_counts_update(s: Seq<(String, User)>, i: int, p: (String, User))
    requires
        0 <= i < s.len(),
    ensures
        sum_counts(s.update(i, p)) == sum_counts(s) - s[i].1.count + p.1.count,
    decreases s.len(),
{
    if i == s.len() - 1 {
        assert(s.update(i, p).drop_last() =~= s.drop_last());
        assert(s.update(i, p).last() == p);
    } else {
        assert(s.update(i, p).drop_last() =~= s.drop_last().update(i, p));
        assert(s.update(i, p).last() == s.last());
        lemma_sum_counts_update(s.drop_last(), i, p);
        assert(s.drop_last()[i] == s[i]);
    }
}

/// Appending a user entry adds its count to the total.
pub proof fn lemma_sum_counts_push(s: Seq<(String, User)>, p: (String, User))
    ensures
        sum_counts(s.push(p)) == sum_counts(s) + p.1.count,
{
    assert(s.push(p).drop_last() =~= s);
    assert(s.push(p).last() == p);
}

impl State {
    /// The structural invariant of the backing maps: distinct keys
    /// throughout, in the inner per-user maps too.
    pub open spec fn maps_inv(self) -> bool {
        &&& self.users.inv()
        &&& self.hashes.inv()
        &&& self.institutes.inv()
        &&& forall|k: Seq<char>|
            self.users@.contains_key(k) ==> (#[trigger] self.users@[k]).details.inv()
    }

    /// The counting and agreement invariant: the issuance count equals the
    /// number of entries of the global hash map and the total of the
    /// per-user counts; each user's count matches that user's entries; and
    /// every certificate stored with a user is stored, with the same
    /// contents, in the global hash map.
    pub open spec fn consistent(self) -> bool {
        &&& self.hashes@.dom().finite()
        &&& self.count as int == self.hashes@.dom().len()
        &&& self.count as int == sum_counts(self.users.kv())
        &&& forall|k: Seq<char>| self.users@.contains_key(k) ==> (#[trigger] self.users@[k]).wf()
        &&& forall|k: Seq<char>, h: Seq<char>|
            #![trigger self.users@[k].details@.dom().contains(h)]
            self.users@.contains_key(k) && self.users@[k].details@.contains_key(h)
                ==> self.hashes@.contains_key(h) && self.hashes@[h].deep_view()
                == self.users@[k].details@[h].deep_view()
    }

    /// Well-formedness of the whole store.
    pub open spec fn wf(self) -> bool {
        self.maps_inv() && self.consistent()
    }
}

/// A store with the same users, hashes and count as a consistent store is
/// itself consistent.
pub proof fn lemma_consistent_same_core(pre: State, post: State)
    requires
        post.users == pre.users,
        post.hashes == pre.hashes,
        post.count == pre.count,
        pre.consistent(),
    ensures
        post.consistent(),
{
    assert forall|k: Seq<char>, h: Seq<char>|
        #![trigger post.users@[k].details@.dom().contains(h)]
        post.users@.contains_key(k) && post.users@[k].details@.contains_key(h)
            implies post.hashes@.contains_key(h) && post.hashes@[h].deep_view()
            == post.users@[k].details@[h].deep_view() by {
        assert(pre.users@[k].details@.contains_key(h));
        let pcert = pre.users@[k].details@[h];
        assert(pre.hashes@.contains_key(h) && pre.hashes@[h].deep_view() == pcert.deep_view());
    }
}

/// An owned copy of a user's certificate map, with the same contents.
pub fn clone_details(m: &StrMap<CertDetails>) -> (r: StrMap<CertDetails>)
    requires
        m.inv(),
    ensures
        r.inv(),
        r@.dom() == m@.dom(),
        r.deep_view() == m.deep_view(),
{
    let n: usize = m.len();
    let mut out: StrMap<CertDetails> = StrMap::new();
    let mut i: usize = 0;
    while i < n
        invariant
            i <= n,
            n as int == m.kv().len(),
            m.inv(),
            out.inv(),
            out@.dom() == map_of(m.kv().take(i as int)).dom(),
            out.deep_view() == m.deep_view().restrict(out@.dom()),
        decreases n - i,
    {
        let p: &(String, CertDetails) = m.pair_at(i);
        let k: String = p.0.clone();
        let v: CertDetails = p.1.clone();
        let ghost pre_out = out;
        proof {
            assert(m.kv().take(i + 1) =~= m.kv().take(i as int).push(m.kv()[i as int]));
            lemma_map_of_push(m.kv().take(i as int), m.kv()[i as int]);
            lemma_map_of_index(m.kv(), i as int);
            lemma_deep_view_facts(*m);
        }
        out.insert(k, v);
        proof {
            lemma_deep_view_insert(pre_out, out, k@, v);
            assert(out@.dom() =~= map_of(m.kv().take(i + 1)).dom());
            assert(out.deep_view() =~= m.deep_view().restrict(out@.dom()));
        }
        i += 1;
    }
    proof {
        assert(m.kv().take(n as int) =~= m.kv());
        lemma_deep_view_facts(*m);
        assert(out.deep_view() =~= m.deep_view());
    }
    out
}

} // verus!
