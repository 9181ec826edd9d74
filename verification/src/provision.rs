//! The token-provisioning workflow.
//!
//! Provisioning a token runs through four gates with an external call
//! between each pair: charge the fee, create the isolated resource, install
//! the shared binary with its initialization payload, and durably commit
//! the record.  Each step here is a verified decision function: it takes
//! the previous call's outcome and yields either the next order or the
//! error that aborts the workflow.  The fee, once charged, is not returned
//! by any later step's failure, and a created-but-uninitialized resource is
//! not torn down: both are surfaced as plain errors, nothing more.

use vstd::prelude::*;
use crate::types::TokenMetadataV;
use crate::identity::Identity;

verus! {

/// The fee charged for provisioning one token resource.
pub const PROVISION_FEE: u32 = 100;

/// The cycles granted to a newly created resource.
pub const CREATION_PAYMENT: u64 = 20_000_000_000;

/// What a caller asks a new token to be.
#[derive(Debug)]
pub struct CreateTokenArgs {
    pub name: String,
    pub symbol: String,
    pub decimals: u8,
    pub token_price: u64,
    pub logo: Option<String>,
}

/// The abstract form of a [`CreateTokenArgs`].
#[verifier::ext_equal]
pub struct CreateTokenArgsV {
    pub name: Seq<char>,
    pub symbol: Seq<char>,
    pub decimals: u8,
    pub token_price: u64,
    pub logo: Option<Seq<char>>,
}

impl View for CreateTokenArgs {
    type V = CreateTokenArgsV;

    open spec fn view(&self) -> CreateTokenArgsV {
        CreateTokenArgsV {
            name: self.name@,
            symbol: self.symbol@,
            decimals: self.decimals,
            token_price: self.token_price,
            logo: match self.logo {
                Option::Some(ref s) => Some(s@),
                Option::None => None,
            },
        }
    }
}

/// What came back from the resource manager's create call.
#[derive(Debug)]
pub enum CreateReply {
    /// The new resource's id.
    Created(Identity),
    /// The call failed with this code and message.
    Failed(u32, String),
}

/// What came back from the install call.
#[derive(Debug)]
pub enum InstallReply {
    Installed,
    /// The call failed with this code and message.
    Failed(u32, String),
}

/// An order to allocate a new isolated resource under these controllers,
/// funded with this payment.
#[derive(Debug)]
pub struct CreateOrder {
    pub controllers: Vec<Identity>,
    pub payment: u64,
}

/// An account on the ledger a new token speaks.
#[derive(Debug)]
pub struct Account {
    pub owner: Identity,
    pub subaccount: Option<Vec<u8>>,
}

/// One metadata value of the initialization payload.
#[derive(Debug)]
pub enum MetadataValue {
    Text(String),
    Nat(u64),
}

/// Ledger feature toggles of the initialization payload.
#[derive(Debug)]
pub struct FeatureFlags {
    pub icrc2: bool,
}

/// The archival policy of the initialization payload.
#[derive(Debug)]
pub struct ArchiveOptions {
    pub trigger_threshold: u64,
    pub num_blocks_to_archive: u64,
    pub node_max_memory_size_bytes: Option<u64>,
    pub max_message_size_bytes: Option<u64>,
    pub controller_id: Identity,
    pub more_controller_ids: Option<Vec<Identity>>,
    pub cycles_for_archive_creation: Option<u64>,
    pub max_transactions_per_response: Option<u64>,
}

/// The initialization payload installed into a new token resource.
#[derive(Debug)]
pub struct InitArgs {
    pub minting_account: Account,
    pub fee_collector_account: Option<Account>,
    pub transfer_fee: u64,
    pub token_symbol: String,
    pub token_name: String,
    pub metadata: Vec<(String, MetadataValue)>,
    pub initial_balances: Vec<(Account, u64)>,
    pub feature_flags: Option<FeatureFlags>,
    pub maximum_number_of_accounts: Option<u64>,
    pub accounts_overflow_trim_quantity: Option<u64>,
    pub archive_options: ArchiveOptions,
    pub decimals: Option<u8>,
    pub max_memo_length: Option<u16>,
}

/// An order to install the shared binary into the created resource with
/// its initialization payload.
#[derive(Debug)]
pub struct InstallOrder {
    pub canister_id: Identity,
    pub wasm_module: Vec<u8>,
    pub init: InitArgs,
}

/// The exact initialization payload the workflow builds: the service mints,
/// the requester collects fees and co-controls the archive, and the
/// metadata carries the requested name, symbol and decimals.
pub open spec fn init_payload_for(
    init: InitArgs,
    self_id: Seq<u8>,
    caller: Seq<u8>,
    args: CreateTokenArgsV,
) -> bool {
    &&& init.minting_account.owner@ == self_id
    &&& init.minting_account.subaccount is None
    &&& (init.fee_collector_account matches Some(a) && a.owner@ == caller && a.subaccount is None)
    &&& init.transfer_fee == 0
    &&& init.token_symbol@ == args.symbol
    &&& init.token_name@ == args.name
    &&& init.metadata@.len() == 3
    &&& init.metadata@[0].0@ == "icrc1:name"@
    &&& (init.metadata@[0].1 matches MetadataValue::Text(t) && t@ == args.name)
    &&& init.metadata@[1].0@ == "icrc1:symbol"@
    &&& (init.metadata@[1].1 matches MetadataValue::Text(t) && t@ == args.symbol)
    &&& init.metadata@[2].0@ == "icrc1:decimals"@
    &&& (init.metadata@[2].1 matches MetadataValue::Nat(d) && d == args.decimals as u64)
    &&& init.initial_balances@.len() == 1
    &&& init.initial_balances@[0].0.owner@ == self_id
    &&& init.initial_balances@[0].0.subaccount is None
    &&& init.initial_balances@[0].1 == 0
    &&& (init.feature_flags matches Some(f) && f.icrc2 == true)
    &&& init.maximum_number_of_accounts == Some(1_000_000u64)
    &&& init.accounts_overflow_trim_quantity == Some(100_000u64)
    &&& init.archive_options.trigger_threshold == 1000
    &&& init.archive_options.num_blocks_to_archive == 2000
    &&& init.archive_options.node_max_memory_size_bytes == Some(3_221_225_472u64)
    &&& init.archive_options.max_message_size_bytes == Some(1_048_576u64)
    &&& init.archive_options.controller_id@ == self_id
    &&& (init.archive_options.more_controller_ids matches Some(v) && v@.len() == 1 && v@[0]@
        == caller)
    &&& init.archive_options.cycles_for_archive_creation == Some(10_000_000_000_000u64)
    &&& init.archive_options.max_transactions_per_response == Some(100u64)
    &&& init.decimals == Some(args.decimals)
    &&& init.max_memo_length == Some(256u16)
}

/// The durable record a successful provisioning commits.
pub open spec fn provisioned_record(args: CreateTokenArgsV, owner: Seq<u8>, now: u64) -> TokenMetadataV {
    TokenMetadataV {
        name: args.name,
        symbol: args.symbol,
        decimals: args.decimals,
        token_price: args.token_price,
        owner,
        logo: args.logo,
        created: now,
    }
}

/// A copy of optional text.
pub(crate) fn clone_opt_string(o: &Option<String>) -> (r: Option<String>)
    ensures
        match *o {
            Option::Some(ref s) => r matches Some(t) && t@ == s@,
            Option::None => r is None,
        },
{
    match o {
        Some(s) => Some(s.clone()),
        None => None,
    }
}

} // verus!
