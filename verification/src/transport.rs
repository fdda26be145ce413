//! What the client of a node decides without touching the network: which
//! address a query goes to, how it is sent, and how the reply is to be
//! read.

use vstd::prelude::*;
use vstd::string::StringExecFns;

verus! {

/// The queries that a node answers.
#[derive(Clone, Copy, Debug, PartialEq, Eq, Structural)]
pub enum Query {
    NodeInfo,
    ChainInfo,
    GasRatio,
    RamInfo,
    ContractStorage,
    ContractStorageFields,
    BatchContractStorage,
}

/// How a query is sent.
#[derive(Clone, Copy, Debug, PartialEq, Eq, Structural)]
pub enum Method {
    /// Without a body.
    Get,
    /// With its parameters as the body.
    Post,
}

/// How the body of a reply is to be read.
#[derive(Clone, Copy, Debug, PartialEq, Eq, Structural)]
pub enum Reply {
    /// As the data that was asked for.
    Data,
    /// As the node's error message.
    ErrorMessage,
}

/// The status code of a reply that carries the data asked for.
pub const STATUS_OK: u16 = 200;

impl Query {
    /// The path of the query below the host.
    pub open spec fn spec_path(self) -> Seq<char> {
        match self {
            Query::NodeInfo => "getNodeInfo"@,
            Query::ChainInfo => "getChainInfo"@,
            Query::GasRatio => "getGasRatio"@,
            Query::RamInfo => "getRAMInfo"@,
            Query::ContractStorage => "getContractStorage"@,
            Query::ContractStorageFields => "getContractStorageFields"@,
            Query::BatchContractStorage => "getBatchContractStorage"@,
        }
    }

    /// How the query is sent: those that take parameters are posted.
    pub open spec fn spec_method(self) -> Method {
        match self {
            Query::NodeInfo | Query::ChainInfo | Query::GasRatio | Query::RamInfo => Method::Get,
            Query::ContractStorage
            | Query::ContractStorageFields
            | Query::BatchContractStorage => Method::Post,
        }
    }

    /// The path of the query below the host.
    pub fn path(self) -> (r: &'static str)
        ensures
            r@ == self.spec_path(),
    {
        match self {
            Query::NodeInfo => "getNodeInfo",
            Query::ChainInfo => "getChainInfo",
            Query::GasRatio => "getGasRatio",
            Query::RamInfo => "getRAMInfo",
            Query::ContractStorage => "getContractStorage",
            Query::ContractStorageFields => "getContractStorageFields",
            Query::BatchContractStorage => "getBatchContractStorage",
        }
    }

    /// How the query is sent.
    #[verifier::when_used_as_spec(spec_method)]
    pub fn method(self) -> (r: Method)
        ensures
            r == self.spec_method(),
    {
        match self {
            Query::NodeInfo | Query::ChainInfo | Query::GasRatio | Query::RamInfo => Method::Get,
            Query::ContractStorage
            | Query::ContractStorageFields
            | Query::BatchContractStorage => Method::Post,
        }
    }
}

/// The address of `path` on `host`: the two joined by one slash.
pub open spec fn url_of(host: Seq<char>, path: Seq<char>) -> Seq<char> {
    host + "/"@ + path
}

/// The address of `path` on `host`.
pub fn request_url(host: &str, path: &str) -> (r: String)
    ensures
        r@ == url_of(host@, path@),
{
    host.to_owned().concat("/").concat(path)
}

/// How the body of a reply with status code `status` is to be read: as
/// data where the code is 200, as an error message for every other code.
pub fn classify(status: u16) -> (r: Reply)
    ensures
        r == if status == STATUS_OK {
            Reply::Data
        } else {
            Reply::ErrorMessage
        },
{
    if status == STATUS_OK {
        Reply::Data
    } else {
        Reply::ErrorMessage
    }
}

} // verus!
