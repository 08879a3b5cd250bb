//! The two representations of a participant identity: the human-readable
//! address string that keys the store's maps, and the canonical binary form
//! that ownership checks compare. The host converts between them; this
//! library never interprets their internal structure.

use vstd::prelude::*;

verus! {

/// The human-readable form of a participant identity, used as a map key and
/// in requests.
#[derive(Debug, PartialEq, Eq)]
pub struct HumanAddr {
    pub text: String,
}

impl View for HumanAddr {
    type V = Seq<char>;

    open spec fn view(&self) -> Seq<char> {
        self.text@
    }
}

impl Clone for HumanAddr {
    fn clone(&self) -> (r: Self)
        ensures
            r == *self,
    {
        HumanAddr { text: self.text.clone() }
    }
}

/// The canonical binary form of a participant identity, used for ownership
/// checks.
#[derive(Debug, PartialEq, Eq)]
pub struct CanonicalAddr {
    pub bytes: Vec<u8>,
}

impl View for CanonicalAddr {
    type V = Seq<u8>;

    open spec fn view(&self) -> Seq<u8> {
        self.bytes@
    }
}

impl Clone for CanonicalAddr {
    fn clone(&self) -> (r: Self)
        ensures
            r@ == self@,
    {
        CanonicalAddr { bytes: copy_bytes(&self.bytes) }
    }
}

/// A byte-for-byte copy of a byte vector.
fn copy_bytes(v: &Vec<u8>) -> (r: Vec<u8>)
    ensures
        r@ == v@,
{
    let n: usize = v.len();
    let mut out: Vec<u8> = Vec::new();
    let mut i: usize = 0;
    while i < n
        invariant
            i <= n,
            n == v.len(),
            out@ == v@.take(i as int),
        decreases n - i,
    {
        out.push(v[i]);
        proof {
            assert(v@.take(i + 1) =~= v@.take(i as int).push(v@[i as int]));
        }
        i += 1;
    }
    proof {
        assert(v@.take(n as int) =~= v@);
    }
    out
}

/// Whether two canonical addresses hold the same bytes.
pub fn canonical_addr_eq(a: &CanonicalAddr, b: &CanonicalAddr) -> (r: bool)
    ensures
        r == (a@ == b@),
{
    let n: usize = a.bytes.len();
    if n != b.bytes.len() {
        return false;
    }
    let mut i: usize = 0;
    while i < n
        invariant
            i <= n,
            n == a.bytes.len(),
            n == b.bytes.len(),
            forall|j: int| 0 <= j < i ==> a@[j] == b@[j],
        decreases n - i,
    {
        if a.bytes[i] != b.bytes[i] {
            return false;
        }
        i += 1;
    }
    proof {
        assert(a@ =~= b@);
    }
    true
}

} // verus!
