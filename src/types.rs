//! The escrow data model and its mathematical views.

use vstd::prelude::*;

verus! {

/// Where an escrow stands in its lifecycle.
#[derive(Clone, Copy, Debug, PartialEq, Eq, Structural)]
pub enum EscrowStatus {
    Created,
    Funded,
    Delivered,
    Released,
    Refunded,
    Disputed,
}

/// The asset an escrow is denominated in.
#[derive(Clone, Copy, Debug, PartialEq, Eq, Structural)]
pub enum Currency {
    BTC,
    CkBTC,
}

/// A reported proof of deposit toward an escrow's address.
#[derive(Debug)]
pub struct UTXO {
    pub txid: String,
    pub vout: u32,
    pub amount_satoshis: u64,
    pub confirmations: u32,
}

/// The mathematical content of a deposit proof.
pub struct DepositView {
    pub txid: Seq<char>,
    pub vout: u32,
    pub amount: u64,
    pub confirmations: u32,
}

impl View for UTXO {
    type V = DepositView;

    open spec fn view(&self) -> DepositView {
        DepositView {
            txid: self.txid@,
            vout: self.vout,
            amount: self.amount_satoshis,
            confirmations: self.confirmations,
        }
    }
}

impl Clone for UTXO {
    fn clone(&self) -> (r: Self)
        ensures
            r == *self,
    {
        UTXO {
            txid: self.txid.clone(),
            vout: self.vout,
            amount_satoshis: self.amount_satoshis,
            confirmations: self.confirmations,
        }
    }
}

/// One escrow deal. Parties are identified by the text of their principal.
#[derive(Debug)]
pub struct EscrowRecord {
    pub escrow_id: String,
    pub creator_id: String,
    pub counterparty_id: String,
    pub amount_satoshis: u64,
    pub currency: Currency,
    pub deposit_address: String,
    pub utxos: Vec<UTXO>,
    pub status: EscrowStatus,
    pub time_lock_unix: Option<u64>,
    pub created_at: u64,
    pub updated_at: u64,
    pub ai_risk_score: Option<u8>,
    pub tags: Vec<String>,
    pub creator_confirmed_delivery: bool,
    pub counterparty_confirmed_delivery: bool,
    /// When the deposits first reached the requested amount.
    pub funded_at: Option<u64>,
}

/// The mathematical content of an escrow record.
pub struct EscrowView {
    pub escrow_id: Seq<char>,
    pub creator: Seq<char>,
    pub counterparty: Seq<char>,
    pub amount: u64,
    pub currency: Currency,
    pub deposit_address: Seq<char>,
    pub deposits: Seq<DepositView>,
    pub status: EscrowStatus,
    pub time_lock: Option<u64>,
    pub created_at: u64,
    pub updated_at: u64,
    pub risk_score: Option<u8>,
    pub tags: Seq<Seq<char>>,
    pub creator_confirmed: bool,
    pub counterparty_confirmed: bool,
    pub funded_at: Option<u64>,
}

/// The views of a sequence of deposit proofs.
pub open spec fn deposits_view(us: Seq<UTXO>) -> Seq<DepositView> {
    us.map_values(|u: UTXO| u@)
}

/// The views of a sequence of strings.
pub open spec fn strings_view(ts: Seq<String>) -> Seq<Seq<char>> {
    ts.map_values(|t: String| t@)
}

impl View for EscrowRecord {
    type V = EscrowView;

    open spec fn view(&self) -> EscrowView {
        EscrowView {
            escrow_id: self.escrow_id@,
            creator: self.creator_id@,
            counterparty: self.counterparty_id@,
            amount: self.amount_satoshis,
            currency: self.currency,
            deposit_address: self.deposit_address@,
            deposits: deposits_view(self.utxos@),
            status: self.status,
            time_lock: self.time_lock_unix,
            created_at: self.created_at,
            updated_at: self.updated_at,
            risk_score: self.ai_risk_score,
            tags: strings_view(self.tags@),
            creator_confirmed: self.creator_confirmed_delivery,
            counterparty_confirmed: self.counterparty_confirmed_delivery,
            funded_at: self.funded_at,
        }
    }
}

impl Clone for EscrowRecord {
    fn clone(&self) -> (r: Self)
        ensures
            r@ == self@,
    {
        let utxos = self.utxos.clone();
        assert(utxos@ =~= self.utxos@);
        let tags = self.tags.clone();
        assert(tags@ =~= self.tags@);
        EscrowRecord {
            escrow_id: self.escrow_id.clone(),
            creator_id: self.creator_id.clone(),
            counterparty_id: self.counterparty_id.clone(),
            amount_satoshis: self.amount_satoshis,
            currency: self.currency,
            deposit_address: self.deposit_address.clone(),
            utxos,
            status: self.status,
            time_lock_unix: self.time_lock_unix,
            created_at: self.created_at,
            updated_at: self.updated_at,
            ai_risk_score: self.ai_risk_score,
            tags,
            creator_confirmed_delivery: self.creator_confirmed_delivery,
            counterparty_confirmed_delivery: self.counterparty_confirmed_delivery,
            funded_at: self.funded_at,
        }
    }
}

/// What a creator supplies to open an escrow.
#[derive(Debug)]
pub struct CreateEscrowParams {
    pub counterparty_id: String,
    pub amount_satoshis: u64,
    pub currency: Currency,
    pub time_lock_unix: Option<u64>,
}

/// What creating an escrow hands back.
#[derive(Debug)]
pub struct CreateEscrowResult {
    pub escrow_id: String,
    pub deposit_address: String,
}

/// Why an escrow action was refused.
#[derive(Clone, Debug, PartialEq, Eq)]
pub enum EscrowError {
    NotFound,
    Unauthorized,
    InvalidStatus,
    InsufficientFunds,
    TimeLockNotExpired,
    AlreadyConfirmed,
    InvalidAmount,
    InternalError(String),
}

} // verus!
