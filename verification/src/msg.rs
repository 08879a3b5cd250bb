//! The request and response shapes of the store's two entrypoints, and the
//! rejections a request can end in.

use crate::addr::HumanAddr;
use crate::state::{CertDetails, User};
use vstd::prelude::*;
use vstd::string::StringExecFns;

verus! {

/// The request that constructs the store; it carries nothing, the owner is
/// the caller of the constructing transaction.
pub struct InitMsg {}

/// A mutation request.
pub enum HandleMsg {
    AddInstitute {
        name: String,
        year: u128,
        website: String,
        email: String,
        location: String,
        wallet_address: HumanAddr,
    },
    StoreCertificate {
        name: String,
        join_date: String,
        end_date: String,
        domain: String,
        address: HumanAddr,
    },
}

/// A read-only request.
pub enum QueryMsg {
    GetCount {},
    GetUserCertificates { user: HumanAddr },
    GetCertificateByHash { hash: String },
}

/// The answer to `GetCount`.
#[derive(Clone, Copy, Debug, PartialEq, Eq, Structural)]
pub struct CountResponse {
    pub count: u128,
}

/// The answer to `GetUserCertificates`.
#[derive(Debug)]
pub struct UserCertsResponse {
    pub certificates: User,
}

/// The answer to `GetCertificateByHash`.
#[derive(Debug)]
pub struct HashCertResponse {
    pub certificate: CertDetails,
}

/// The answer to a query, by request kind.
#[derive(Debug)]
pub enum QueryAnswer {
    Count(CountResponse),
    Certificate(HashCertResponse),
    UserCertificates(UserCertsResponse),
}

/// Why a request was rejected. Every rejection leaves the store unchanged.
#[derive(Clone, Copy, Debug, PartialEq, Eq, Structural)]
pub enum ContractError {
    /// The caller of a register request is not the store owner.
    Unauthorized,
    /// The signer of an issue request has no institute record.
    NotRegistered,
    /// A query named a hash or an address that holds no record.
    NotFound,
    /// The host could not convert an address between its two forms.
    MalformedAddress,
}

impl ContractError {
    /// The text of this rejection.
    pub open spec fn spec_message(self) -> Seq<char> {
        match self {
            ContractError::Unauthorized => "Unauthorized"@,
            ContractError::NotRegistered => "No institute registered with signed address"@,
            ContractError::NotFound => "Not found"@,
            ContractError::MalformedAddress => "Malformed address"@,
        }
    }

    /// The text the host reports for this rejection.
    pub fn message(&self) -> (r: String)
        ensures
            r@ == self.spec_message(),
    {
        match self {
            ContractError::Unauthorized => String::from_str("Unauthorized"),
            ContractError::NotRegistered => String::from_str(
                "No institute registered with signed address",
            ),
            ContractError::NotFound => String::from_str("Not found"),
            ContractError::MalformedAddress => String::from_str("Malformed address"),
        }
    }
}

} // verus!
