//! The records of the service and the changes that requests make to them.

use vstd::prelude::*;
use vstd::string::*;
use crate::error::AppResult;
use crate::invoice::text_view;
use crate::requests::{bad_request, judged};

verus! {

/// An account, as stored.
#[derive(Clone, Debug)]
pub struct User {
    pub id: String,
    pub email: String,
    pub name: String,
    pub password_hash: String,
    pub default_currency: String,
    pub created_at: String,
    pub updated_at: String,
}

/// An account as shown to its owner: everything but the password hash.
#[derive(Clone, Debug)]
pub struct UserPublic {
    pub id: String,
    pub email: String,
    pub name: String,
    pub default_currency: String,
    pub created_at: String,
    pub updated_at: String,
}

impl From<User> for UserPublic {
    fn from(user: User) -> (shown: UserPublic) {
        UserPublic {
            id: user.id,
            email: user.email,
            name: user.name,
            default_currency: user.default_currency,
            created_at: user.created_at,
            updated_at: user.updated_at,
        }
    }
}

impl vstd::std_specs::convert::FromSpecImpl<User> for UserPublic {
    open spec fn obeys_from_spec() -> bool {
        true
    }

    open spec fn from_spec(user: User) -> UserPublic {
        UserPublic {
            id: user.id,
            email: user.email,
            name: user.name,
            default_currency: user.default_currency,
            created_at: user.created_at,
            updated_at: user.updated_at,
        }
    }
}

/// A signed-in session.
#[derive(Clone, Debug)]
pub struct Session {
    pub id: String,
    pub user_id: String,
    pub token: String,
    pub expires_at: String,
    pub ip_address: Option<String>,
    pub user_agent: Option<String>,
    pub created_at: String,
}

impl Session {
    /// Whether the session is still good at `now`: it ends when its expiry is
    /// reached. Times are compared as text.
    pub fn is_valid_at(&self, now: &str) -> (valid: bool)
        ensures
            valid == crate::text::text_before(now@, self.expires_at@),
    {
        crate::text::comes_before(now, self.expires_at.as_str())
    }
}

/// The text that a change gives a required field: the new one where there is one.
pub open spec fn replaced(new: Option<String>, old: String) -> Seq<char> {
    match new {
        Some(text) => text@,
        None => old@,
    }
}

/// The text that a change gives an optional field: the new one where there is one.
pub open spec fn replaced_optional(new: Option<String>, old: Option<String>) -> Option<Seq<char>> {
    match new {
        Some(text) => Some(text@),
        None => text_view(old),
    }
}

fn replace(new: Option<String>, old: String) -> (text: String)
    ensures
        text@ == replaced(new, old),
{
    match new {
        Some(text) => text,
        None => old,
    }
}

fn replace_optional(new: Option<String>, old: Option<String>) -> (text: Option<String>)
    ensures
        text_view(text) == replaced_optional(new, old),
{
    match new {
        Some(text) => Some(text),
        None => old,
    }
}

/// What is wrong with a required text: the complaint where it is empty.
pub open spec fn required(text: String, complaint: Seq<char>) -> Option<Seq<char>> {
    if text@.len() == 0 {
        Some(complaint)
    } else {
        None
    }
}

fn require(text: &String, complaint: &'static str) -> (result: AppResult<()>)
    ensures
        judged(result, required(*text, complaint@)),
{
    if text.as_str().is_empty() {
        Err(bad_request(complaint))
    } else {
        Ok(())
    }
}

/// A label that a user puts on transactions.
#[derive(Debug)]
pub struct Label {
    pub id: String,
    pub user_id: String,
    pub name: String,
    pub color: Option<String>,
    pub created_at: String,
}

/// A request to make a label.
#[derive(Debug)]
pub struct CreateLabelRequest {
    pub name: String,
    pub color: Option<String>,
}

impl CreateLabelRequest {
    /// Accepts the request or refuses it for its empty name.
    pub fn validate(&self) -> (result: AppResult<()>)
        ensures
            judged(result, required(self.name, "Name is required"@)),
    {
        require(&self.name, "Name is required")
    }
}

/// A change to a label. Fields left out keep their value.
#[derive(Debug)]
pub struct UpdateLabelRequest {
    pub name: Option<String>,
    pub color: Option<String>,
}

impl UpdateLabelRequest {
    /// The label after the change.
    pub fn apply(self, existing: Label) -> (label: Label)
        ensures
            label.id == existing.id,
            label.user_id == existing.user_id,
            label.created_at == existing.created_at,
            label.name@ == replaced(self.name, existing.name),
            text_view(label.color) == replaced_optional(self.color, existing.color),
    {
        Label {
            id: existing.id,
            user_id: existing.user_id,
            name: replace(self.name, existing.name),
            color: replace_optional(self.color, existing.color),
            created_at: existing.created_at,
        }
    }
}

/// The labels to put on a transaction, in place of those it has.
#[derive(Debug)]
pub struct AssignLabelsRequest {
    pub label_ids: Vec<String>,
}

/// A portfolio: one ledger with its wallets and invoices.
#[derive(Debug)]
pub struct Portfolio {
    pub id: String,
    pub user_id: String,
    pub name: String,
    pub description: Option<String>,
    pub created_at: String,
    pub updated_at: String,
}

/// A request to open a portfolio.
#[derive(Debug)]
pub struct CreatePortfolioRequest {
    pub name: String,
    pub description: Option<String>,
}

impl CreatePortfolioRequest {
    /// Accepts the request or refuses it for its empty name.
    pub fn validate(&self) -> (result: AppResult<()>)
        ensures
            judged(result, required(self.name, "Name is required"@)),
    {
        require(&self.name, "Name is required")
    }
}

/// A change to a portfolio. Fields left out keep their value.
#[derive(Debug)]
pub struct UpdatePortfolioRequest {
    pub name: Option<String>,
    pub description: Option<String>,
}

impl UpdatePortfolioRequest {
    /// The portfolio after the change, made at `now`.
    pub fn apply(self, existing: Portfolio, now: String) -> (portfolio: Portfolio)
        ensures
            portfolio.id == existing.id,
            portfolio.user_id == existing.user_id,
            portfolio.created_at == existing.created_at,
            portfolio.updated_at == now,
            portfolio.name@ == replaced(self.name, existing.name),
            text_view(portfolio.description) == replaced_optional(
                self.description,
                existing.description,
            ),
    {
        Portfolio {
            id: existing.id,
            user_id: existing.user_id,
            name: replace(self.name, existing.name),
            description: replace_optional(self.description, existing.description),
            created_at: existing.created_at,
            updated_at: now,
        }
    }
}

/// A wallet that is watched for a portfolio.
#[derive(Debug)]
pub struct Wallet {
    pub id: String,
    pub portfolio_id: String,
    pub label: String,
    pub wallet_type: String,
    pub descriptor: Option<String>,
    pub xpub: Option<String>,
    pub address: Option<String>,
    pub network: String,
    pub derivation_path: Option<String>,
    pub gap_limit: i64,
    pub last_synced_at: Option<String>,
    pub last_sync_height: Option<i64>,
    pub created_at: String,
    pub updated_at: String,
}

/// A request to add a wallet.
#[derive(Debug)]
pub struct CreateWalletRequest {
    pub portfolio_id: String,
    pub label: String,
    pub wallet_type: Option<String>,
    pub descriptor: Option<String>,
    pub xpub: Option<String>,
    pub address: Option<String>,
    pub network: Option<String>,
    pub derivation_path: Option<String>,
    pub gap_limit: Option<i64>,
}

/// An optional text, or a default where there is none.
pub open spec fn text_or(text: Option<String>, default: Seq<char>) -> Seq<char> {
    match text {
        Some(t) => t@,
        None => default,
    }
}

fn text_or_default(text: &Option<String>, default: &str) -> (chosen: String)
    ensures
        chosen@ == text_or(*text, default@),
{
    match text {
        Some(t) => t.clone(),
        None => String::from_str(default),
    }
}

impl CreateWalletRequest {
    /// Accepts the request or refuses it for its empty label.
    pub fn validate(&self) -> (result: AppResult<()>)
        ensures
            judged(result, required(self.label, "Label is required"@)),
    {
        require(&self.label, "Label is required")
    }

    /// The wallet that the request describes, made at `now` under `id`: a
    /// descriptor wallet on the main network with a gap limit of 20 where the
    /// request does not say otherwise, and never synced.
    pub fn into_wallet(self, id: String, now: String) -> (wallet: Wallet)
        ensures
            wallet.id == id,
            wallet.portfolio_id == self.portfolio_id,
            wallet.label == self.label,
            wallet.wallet_type@ == text_or(self.wallet_type, "descriptor"@),
            wallet.network@ == text_or(self.network, "bitcoin"@),
            wallet.gap_limit == match self.gap_limit {
                Some(n) => n,
                None => 20,
            },
            wallet.descriptor == self.descriptor,
            wallet.xpub == self.xpub,
            wallet.address == self.address,
            wallet.derivation_path == self.derivation_path,
            wallet.last_synced_at is None,
            wallet.last_sync_height is None,
            wallet.created_at@ == now@,
            wallet.updated_at == now,
    {
        let wallet_type = text_or_default(&self.wallet_type, "descriptor");
        let network = text_or_default(&self.network, "bitcoin");
        Wallet {
            id,
            portfolio_id: self.portfolio_id,
            label: self.label,
            wallet_type,
            descriptor: self.descriptor,
            xpub: self.xpub,
            address: self.address,
            network,
            derivation_path: self.derivation_path,
            gap_limit: match self.gap_limit {
                Some(n) => n,
                None => 20,
            },
            last_synced_at: None,
            last_sync_height: None,
            created_at: now.clone(),
            updated_at: now,
        }
    }
}

/// A change to a wallet. Fields left out keep their value.
#[derive(Debug)]
pub struct UpdateWalletRequest {
    pub label: Option<String>,
    pub gap_limit: Option<i64>,
}

impl UpdateWalletRequest {
    /// The wallet after the change, made at `now`.
    pub fn apply(self, existing: Wallet, now: String) -> (wallet: Wallet)
        ensures
            wallet.label@ == replaced(self.label, existing.label),
            wallet.gap_limit == match self.gap_limit {
                Some(n) => n,
                None => existing.gap_limit,
            },
            wallet.updated_at == now,
            wallet.id == existing.id,
            wallet.portfolio_id == existing.portfolio_id,
            wallet.wallet_type == existing.wallet_type,
            wallet.descriptor == existing.descriptor,
            wallet.xpub == existing.xpub,
            wallet.address == existing.address,
            wallet.network == existing.network,
            wallet.derivation_path == existing.derivation_path,
            wallet.last_synced_at == existing.last_synced_at,
            wallet.last_sync_height == existing.last_sync_height,
            wallet.created_at == existing.created_at,
    {
        Wallet {
            id: existing.id,
            portfolio_id: existing.portfolio_id,
            label: replace(self.label, existing.label),
            wallet_type: existing.wallet_type,
            descriptor: existing.descriptor,
            xpub: existing.xpub,
            address: existing.address,
            network: existing.network,
            derivation_path: existing.derivation_path,
            gap_limit: match self.gap_limit {
                Some(n) => n,
                None => existing.gap_limit,
            },
            last_synced_at: existing.last_synced_at,
            last_sync_height: existing.last_sync_height,
            created_at: existing.created_at,
            updated_at: now,
        }
    }
}

/// A request to sync a wallet with the chain.
#[derive(Debug)]
pub struct SyncRequest {
    pub gap_limit: Option<usize>,
}

impl SyncRequest {
    /// The gap limit of the sync: the request's, or else the wallet's own.
    pub fn gap_limit_or(&self, stored: usize) -> (limit: usize)
        ensures
            limit == match self.gap_limit {
                Some(n) => n,
                None => stored,
            },
    {
        match self.gap_limit {
            Some(n) => n,
            None => stored,
        }
    }
}

/// What a sync found.
#[derive(Clone, Copy, Debug, PartialEq, Eq, Structural)]
pub struct SyncResult {
    pub transactions_found: usize,
    pub new_transactions: usize,
    pub balance_sat: u64,
    pub last_sync_height: Option<u32>,
}

/// What a sync found, as answered to the caller.
#[derive(Clone, Copy, Debug, PartialEq, Eq, Structural)]
pub struct SyncResponse {
    pub transactions_found: usize,
    pub new_transactions: usize,
    pub balance_sat: u64,
    pub last_sync_height: Option<u32>,
}

impl SyncResult {
    /// The answer that reports this result.
    pub fn into_response(self) -> (response: SyncResponse)
        ensures
            response == (SyncResponse {
                transactions_found: self.transactions_found,
                new_transactions: self.new_transactions,
                balance_sat: self.balance_sat,
                last_sync_height: self.last_sync_height,
            }),
    {
        SyncResponse {
            transactions_found: self.transactions_found,
            new_transactions: self.new_transactions,
            balance_sat: self.balance_sat,
            last_sync_height: self.last_sync_height,
        }
    }
}

/// An address of a wallet.
#[derive(Debug)]
pub struct AddressInfo {
    pub index: u32,
    pub address: String,
    pub keychain: String,
}

/// The addresses of a wallet.
#[derive(Debug)]
pub struct AddressesResponse {
    pub addresses: Vec<AddressInfo>,
}

/// An unspent output of a wallet.
#[derive(Debug)]
pub struct UtxoInfo {
    pub txid: String,
    pub vout: u32,
    pub value_sat: u64,
    pub keychain: String,
}

/// The unspent outputs of a wallet and what they hold in all.
#[derive(Debug)]
pub struct UtxosResponse {
    pub utxos: Vec<UtxoInfo>,
    pub total_sat: u64,
}

/// Satoshis in the first `n` outputs.
pub open spec fn utxo_total_upto(utxos: Seq<UtxoInfo>, n: nat) -> nat
    decreases n,
{
    if n == 0 {
        0
    } else {
        utxo_total_upto(utxos, (n - 1) as nat) + utxos[n - 1].value_sat as nat
    }
}

/// The total grows with the outputs counted.
pub proof fn lemma_utxo_total_monotone(utxos: Seq<UtxoInfo>, a: nat, b: nat)
    requires
        a <= b,
    ensures
        utxo_total_upto(utxos, a) <= utxo_total_upto(utxos, b),
    decreases b,
{
    if a < b {
        lemma_utxo_total_monotone(utxos, a, (b - 1) as nat);
    }
}

impl UtxosResponse {
    /// The answer that lists the outputs with their total; `None` where the total
    /// does not fit a `u64`.
    pub fn new(utxos: Vec<UtxoInfo>) -> (response: Option<UtxosResponse>)
        ensures
            response is Some <==> utxo_total_upto(utxos@, utxos@.len()) <= u64::MAX,
            response matches Some(r) ==> r.utxos == utxos && r.total_sat == utxo_total_upto(
                utxos@,
                utxos@.len(),
            ),
    {
        let mut total: u64 = 0;
        let mut i: usize = 0;
        while i < utxos.len()
            invariant
                i <= utxos.len(),
                total == utxo_total_upto(utxos@, i as nat),
            decreases utxos.len() - i,
        {
            let value = utxos[i].value_sat;
            if value > u64::MAX - total {
                proof {
                    lemma_utxo_total_monotone(utxos@, (i + 1) as nat, utxos@.len());
                }
                return None;
            }
            total = total + value;
            i += 1;
        }
        Some(UtxosResponse { utxos, total_sat: total })
    }
}

} // verus!
