//! Balances per user, deposit credits and transfers between users.

use vstd::prelude::*;
use vstd::string::*;

use crate::ids::{generate_tx_id, tx_id_of};
use crate::text::{hex, push_hex};
use crate::types::Currency;

verus! {

/// A user's balances, in the smallest unit of each asset.
#[derive(Debug)]
pub struct WalletBalance {
    pub user_id: String,
    pub btc_balance: u64,
    pub ckbtc_balance: u64,
    pub pending_deposits: u64,
    pub pending_withdrawals: u64,
    pub last_updated: u64,
}

/// The mathematical content of a balance.
pub struct BalanceView {
    pub user: Seq<char>,
    pub btc: u64,
    pub ckbtc: u64,
    pub pending_deposits: u64,
    pub pending_withdrawals: u64,
    pub last_updated: u64,
}

impl View for WalletBalance {
    type V = BalanceView;

    open spec fn view(&self) -> BalanceView {
        BalanceView {
            user: self.user_id@,
            btc: self.btc_balance,
            ckbtc: self.ckbtc_balance,
            pending_deposits: self.pending_deposits,
            pending_withdrawals: self.pending_withdrawals,
            last_updated: self.last_updated,
        }
    }
}

impl Clone for WalletBalance {
    fn clone(&self) -> (r: Self)
        ensures
            r@ == self@,
    {
        WalletBalance {
            user_id: self.user_id.clone(),
            btc_balance: self.btc_balance,
            ckbtc_balance: self.ckbtc_balance,
            pending_deposits: self.pending_deposits,
            pending_withdrawals: self.pending_withdrawals,
            last_updated: self.last_updated,
        }
    }
}

/// A movement of funds as seen by one user.
#[derive(Debug)]
pub struct Transaction {
    pub tx_id: String,
    pub user_id: String,
    pub tx_type: String,
    pub amount: u64,
    pub currency: String,
    pub status: String,
    pub created_at: u64,
    pub confirmed_at: Option<u64>,
}

/// The mathematical content of a transaction.
pub struct TransactionView {
    pub tx_id: Seq<char>,
    pub user: Seq<char>,
    pub tx_type: Seq<char>,
    pub amount: u64,
    pub currency: Seq<char>,
    pub status: Seq<char>,
    pub created_at: u64,
    pub confirmed_at: Option<u64>,
}

impl View for Transaction {
    type V = TransactionView;

    open spec fn view(&self) -> TransactionView {
        TransactionView {
            tx_id: self.tx_id@,
            user: self.user_id@,
            tx_type: self.tx_type@,
            amount: self.amount,
            currency: self.currency@,
            status: self.status@,
            created_at: self.created_at,
            confirmed_at: self.confirmed_at,
        }
    }
}

impl Clone for Transaction {
    fn clone(&self) -> (r: Self)
        ensures
            r@ == self@,
    {
        Transaction {
            tx_id: self.tx_id.clone(),
            user_id: self.user_id.clone(),
            tx_type: self.tx_type.clone(),
            amount: self.amount,
            currency: self.currency.clone(),
            status: self.status.clone(),
            created_at: self.created_at,
            confirmed_at: self.confirmed_at,
        }
    }
}

/// An address at which a user receives deposits in one currency.
#[derive(Debug)]
pub struct DepositAddress {
    pub user_id: String,
    pub address: String,
    pub currency: String,
    pub created_at: u64,
}

/// The mathematical content of a deposit address.
pub struct AddressView {
    pub user: Seq<char>,
    pub address: Seq<char>,
    pub currency: Seq<char>,
    pub created_at: u64,
}

impl View for DepositAddress {
    type V = AddressView;

    open spec fn view(&self) -> AddressView {
        AddressView {
            user: self.user_id@,
            address: self.address@,
            currency: self.currency@,
            created_at: self.created_at,
        }
    }
}

impl Clone for DepositAddress {
    fn clone(&self) -> (r: Self)
        ensures
            r@ == self@,
    {
        DepositAddress {
            user_id: self.user_id.clone(),
            address: self.address.clone(),
            currency: self.currency.clone(),
            created_at: self.created_at,
        }
    }
}

/// Addresses are derived from the clock modulo this value.
pub const ADDRESS_SPACE: u64 = 1_000_000;

/// The address handed out at time `now`: `tb1q` or `ckbtc-` and `now` modulo a million in
/// lower-case hexadecimal.
pub open spec fn address_at(c: Currency, now: u64) -> Seq<char> {
    match c {
        Currency::BTC => seq!['t', 'b', '1', 'q'] + hex((now % ADDRESS_SPACE) as nat),
        Currency::CkBTC => seq!['c', 'k', 'b', 't', 'c', '-'] + hex((now % ADDRESS_SPACE) as nat),
    }
}

/// Some address of `user` is for `currency`.
pub open spec fn has_address(s: Seq<AddressView>, user: Seq<char>, currency: Seq<char>) -> bool {
    exists|i: int| 0 <= i < s.len() && (#[trigger] s[i]).user == user && s[i].currency == currency
}

/// The position of `user`'s address for `currency`.
pub open spec fn address_slot(s: Seq<AddressView>, user: Seq<char>, currency: Seq<char>) -> int {
    choose|i: int| 0 <= i < s.len() && (#[trigger] s[i]).user == user && s[i].currency == currency
}

/// The addresses, in order, of `user`.
pub open spec fn addresses_of(s: Seq<AddressView>, user: Seq<char>) -> Seq<AddressView> {
    s.filter(|a: AddressView| a.user == user)
}

/// The views of a sequence of addresses.
pub open spec fn addresses_view(s: Seq<DepositAddress>) -> Seq<AddressView> {
    s.map_values(|a: DepositAddress| a@)
}

/// A request to move funds to another user.
#[derive(Debug)]
pub struct TransferParams {
    pub to: String,
    pub amount: u64,
    pub currency: String,
}

/// Why a wallet operation was refused.
#[derive(Clone, Debug, PartialEq, Eq)]
pub enum WalletError {
    InsufficientBalance,
    InvalidAddress,
    InvalidAmount,
    TransferFailed(String),
    NotFound,
    Unauthorized,
}

/// The asset a currency code names: `BTC` or `ckBTC`.
pub open spec fn currency_of(code: Seq<char>) -> Option<Currency> {
    if code == seq!['B', 'T', 'C'] {
        Some(Currency::BTC)
    } else if code == seq!['c', 'k', 'B', 'T', 'C'] {
        Some(Currency::CkBTC)
    } else {
        None
    }
}

/// Reads a currency code.
pub fn parse_currency(code: &String) -> (r: Option<Currency>)
    ensures
        r == currency_of(code@),
{
    let btc = String::from_str("BTC");
    let ckbtc = String::from_str("ckBTC");
    proof {
        reveal_strlit("BTC");
        reveal_strlit("ckBTC");
    }
    assert(btc@ =~= seq!['B', 'T', 'C']);
    assert(ckbtc@ =~= seq!['c', 'k', 'B', 'T', 'C']);
    if *code == btc {
        Some(Currency::BTC)
    } else if *code == ckbtc {
        Some(Currency::CkBTC)
    } else {
        None
    }
}

/// The balance held in `c`.
pub open spec fn held(b: BalanceView, c: Currency) -> u64 {
    match c {
        Currency::BTC => b.btc,
        Currency::CkBTC => b.ckbtc,
    }
}

/// The balance with the amount held in `c` set to `v`, stamped at `now`.
pub open spec fn with_held(b: BalanceView, c: Currency, v: u64, now: u64) -> BalanceView {
    match c {
        Currency::BTC => BalanceView { btc: v, last_updated: now, ..b },
        Currency::CkBTC => BalanceView { ckbtc: v, last_updated: now, ..b },
    }
}

/// The balance a user starts with.
pub open spec fn empty_balance(user: Seq<char>, now: u64) -> BalanceView {
    BalanceView {
        user,
        btc: 0,
        ckbtc: 0,
        pending_deposits: 0,
        pending_withdrawals: 0,
        last_updated: now,
    }
}

/// Some balance belongs to `user`.
pub open spec fn has_balance(s: Seq<BalanceView>, user: Seq<char>) -> bool {
    exists|i: int| 0 <= i < s.len() && #[trigger] s[i].user == user
}

/// The position of `user`'s balance.
pub open spec fn balance_slot(s: Seq<BalanceView>, user: Seq<char>) -> int {
    choose|i: int| 0 <= i < s.len() && #[trigger] s[i].user == user
}

/// `user`'s balance, or an empty one.
pub open spec fn balance_or_empty(s: Seq<BalanceView>, user: Seq<char>, now: u64) -> BalanceView {
    if has_balance(s, user) {
        s[balance_slot(s, user)]
    } else {
        empty_balance(user, now)
    }
}

/// The balances with `user`'s replaced by `b`, or `b` appended when `user` had none.
pub open spec fn put_balance(s: Seq<BalanceView>, user: Seq<char>, b: BalanceView) -> Seq<BalanceView> {
    if has_balance(s, user) {
        s.update(balance_slot(s, user), b)
    } else {
        s.push(b)
    }
}

/// A confirmed transaction record.
pub open spec fn confirmed_tx(
    id: Seq<char>,
    user: Seq<char>,
    kind: Seq<char>,
    amount: u64,
    currency: Seq<char>,
    now: u64,
) -> TransactionView {
    TransactionView {
        tx_id: id,
        user,
        tx_type: kind,
        amount,
        currency,
        status: "confirmed"@,
        created_at: now,
        confirmed_at: Some(now),
    }
}

/// The transactions, in order, of `user`.
pub open spec fn transactions_of(s: Seq<TransactionView>, user: Seq<char>) -> Seq<TransactionView> {
    s.filter(|t: TransactionView| t.user == user)
}

/// The views of a sequence of balances.
pub open spec fn balances_view(bs: Seq<WalletBalance>) -> Seq<BalanceView> {
    bs.map_values(|b: WalletBalance| b@)
}

/// The views of a sequence of transactions.
pub open spec fn transactions_view(ts: Seq<Transaction>) -> Seq<TransactionView> {
    ts.map_values(|t: Transaction| t@)
}

/// Balances, one per user, and every transaction, in order; transaction identifiers count
/// from one.
pub struct WalletLedger {
    balances: Vec<WalletBalance>,
    transactions: Vec<Transaction>,
    tx_count: u64,
    addresses: Vec<DepositAddress>,
}

impl WalletLedger {
    /// The balances, in order of first appearance.
    pub closed spec fn balances(&self) -> Seq<BalanceView> {
        balances_view(self.balances@)
    }

    /// Every transaction, in order.
    pub closed spec fn transactions(&self) -> Seq<TransactionView> {
        transactions_view(self.transactions@)
    }

    /// The deposit addresses, in the order they were handed out.
    pub closed spec fn addresses(&self) -> Seq<AddressView> {
        addresses_view(self.addresses@)
    }

    /// How many transaction identifiers have been handed out.
    pub closed spec fn tx_count(&self) -> nat {
        self.tx_count as nat
    }

    /// One balance per user and one address per user and currency.
    pub open spec fn wf(&self) -> bool {
        &&& forall|i: int, j: int|
            0 <= i < self.balances().len() && 0 <= j < self.balances().len() && i != j
                ==> #[trigger] self.balances()[i].user != #[trigger] self.balances()[j].user
        &&& forall|i: int, j: int|
            0 <= i < self.addresses().len() && 0 <= j < self.addresses().len() && i != j
                && self.addresses()[i].user == self.addresses()[j].user
                ==> #[trigger] self.addresses()[i].currency != #[trigger] self.addresses()[j].currency
    }

    /// An empty ledger.
    pub fn new() -> (r: Self)
        ensures
            r.wf(),
            r.balances() == Seq::<BalanceView>::empty(),
            r.transactions() == Seq::<TransactionView>::empty(),
            r.tx_count() == 0,
            r.addresses() == Seq::<AddressView>::empty(),
    {
        let r = WalletLedger {
            balances: Vec::new(),
            transactions: Vec::new(),
            tx_count: 0,
            addresses: Vec::new(),
        };
        assert(r.addresses() =~= Seq::<AddressView>::empty());
        assert(r.balances() =~= Seq::<BalanceView>::empty());
        assert(r.transactions() =~= Seq::<TransactionView>::empty());
        r
    }

    fn find(&self, user: &String) -> (r: Option<usize>)
        requires
            self.wf(),
        ensures
            has_balance(self.balances(), user@) ==> (r matches Some(i) && i as int == balance_slot(
                self.balances(),
                user@,
            )),
            !has_balance(self.balances(), user@) ==> r is None,
            r matches Some(i) ==> i < self.balances().len(),
    {
        let mut i: usize = 0;
        while i < self.balances.len()
            invariant
                self.wf(),
                i <= self.balances().len(),
                self.balances().len() == self.balances@.len(),
                forall|j: int| 0 <= j < i ==> #[trigger] self.balances()[j].user != user@,
            decreases self.balances@.len() - i,
        {
            assert(self.balances()[i as int] == self.balances@[i as int]@);
            if self.balances[i].user_id == *user {
                assert(self.balances()[i as int].user == user@);
                return Some(i);
            }
            i = i + 1;
        }
        None
    }

    fn put(&mut self, user: &String, b: WalletBalance)
        requires
            old(self).wf(),
            b@.user == user@,
        ensures
            final(self).wf(),
            final(self).balances() == put_balance(old(self).balances(), user@, b@),
            final(self).transactions() == old(self).transactions(),
            final(self).tx_count() == old(self).tx_count(),
            final(self).addresses() == old(self).addresses(),
    {
        let ghost before = self.balances();
        let ghost v = b@;
        match self.find(user) {
            Some(i) => {
                self.balances.set(i, b);
                assert(self.balances() =~= before.update(i as int, v));
            },
            None => {
                self.balances.push(b);
                assert(self.balances() =~= before.push(v));
            },
        }
        assert forall|a: int, c: int|
            0 <= a < self.balances().len() && 0 <= c < self.balances().len() && a != c implies #[trigger] self.balances()[a].user
                != #[trigger] self.balances()[c].user by {
            if a < before.len() && c < before.len() {
                assert(self.balances()[a].user == before[a].user);
                assert(self.balances()[c].user == before[c].user);
            } else if a < before.len() {
                assert(self.balances()[a] == before[a]);
            } else if c < before.len() {
                assert(self.balances()[c] == before[c]);
            }
        }
        assert(self.addresses() =~= old(self).addresses());
    }

    fn balance_for(&self, user: &String, now: u64) -> (r: WalletBalance)
        requires
            self.wf(),
        ensures
            r@ == balance_or_empty(self.balances(), user@, now),
    {
        match self.find(user) {
            Some(i) => {
                assert(self.balances()[i as int] == self.balances@[i as int]@);
                self.balances[i].clone()
            },
            None => WalletBalance {
                user_id: user.clone(),
                btc_balance: 0,
                ckbtc_balance: 0,
                pending_deposits: 0,
                pending_withdrawals: 0,
                last_updated: now,
            },
        }
    }

    /// The balance of `user`.
    pub fn get_balance(&self, user: &String) -> (r: Option<WalletBalance>)
        requires
            self.wf(),
        ensures
            has_balance(self.balances(), user@) ==> (r matches Some(b) && b@ == self.balances()[balance_slot(
                self.balances(),
                user@,
            )]),
            !has_balance(self.balances(), user@) ==> r is None,
    {
        match self.find(user) {
            None => None,
            Some(i) => {
                assert(self.balances()[i as int] == self.balances@[i as int]@);
                Some(self.balances[i].clone())
            },
        }
    }

    fn record(&mut self, user: &String, kind: &str, amount: u64, currency: &String, id: &String, now: u64)
        requires
            old(self).wf(),
        ensures
            final(self).wf(),
            final(self).balances() == old(self).balances(),
            final(self).tx_count() == old(self).tx_count(),
            final(self).addresses() == old(self).addresses(),
            final(self).transactions() == old(self).transactions().push(
                confirmed_tx(id@, user@, kind@, amount, currency@, now),
            ),
    {
        let status = String::from_str("confirmed");
        let tx = Transaction {
            tx_id: id.clone(),
            user_id: user.clone(),
            tx_type: String::from_str(kind),
            amount,
            currency: currency.clone(),
            status,
            created_at: now,
            confirmed_at: Some(now),
        };
        let ghost before = self.transactions();
        let ghost v = tx@;
        self.transactions.push(tx);
        assert(self.transactions() =~= before.push(v));
        assert(self.addresses() =~= old(self).addresses());
        assert(self.balances() =~= old(self).balances());
    }

    fn next_tx_id(&mut self) -> (r: Option<String>)
        requires
            old(self).wf(),
        ensures
            final(self).wf(),
            final(self).addresses() == old(self).addresses(),
            final(self).balances() == old(self).balances(),
            final(self).transactions() == old(self).transactions(),
            old(self).tx_count() >= u64::MAX ==> r is None && final(self).tx_count() == old(self).tx_count(),
            old(self).tx_count() < u64::MAX ==> (r matches Some(id) && id@ == tx_id_of(
                old(self).tx_count() + 1,
            ) && final(self).tx_count() == old(self).tx_count() + 1),
    {
        if self.tx_count == u64::MAX {
            return None;
        }
        self.tx_count = self.tx_count + 1;
        assert(self.addresses() =~= old(self).addresses());
        assert(self.balances() =~= old(self).balances());
        Some(generate_tx_id(self.tx_count))
    }

    /// Credits a deposit of `amount` in `currency` to `user` and records it.
    pub fn update_balance(&mut self, user: &String, amount: u64, currency: &String, now: u64) -> (r:
        Result<WalletBalance, WalletError>)
        requires
            old(self).wf(),
        ensures
            final(self).wf(),
            r is Err ==> final(self).balances() == old(self).balances() && final(self).transactions()
                == old(self).transactions(),
            currency_of(currency@) is None ==> r == Err::<WalletBalance, WalletError>(
                WalletError::InvalidAddress,
            ),
            currency_of(currency@) matches Some(c) ==> {
                let b = balance_or_empty(old(self).balances(), user@, now);
                if held(b, c) + amount > u64::MAX || old(self).tx_count() >= u64::MAX {
                    r matches Err(WalletError::TransferFailed(_))
                } else {
                    let nb = with_held(b, c, (held(b, c) + amount) as u64, now);
                    &&& r matches Ok(x)
                    &&& r->Ok_0@ == nb
                    &&& final(self).balances() == put_balance(old(self).balances(), user@, nb)
                    &&& final(self).transactions() == old(self).transactions().push(
                        confirmed_tx(tx_id_of(old(self).tx_count() + 1), user@, "deposit"@, amount, currency@, now),
                    )
                }
            },
    {
        let c = match parse_currency(currency) {
            Some(c) => c,
            None => {
                return Err(WalletError::InvalidAddress);
            },
        };
        let mut b = self.balance_for(user, now);
        match c {
            Currency::BTC => match b.btc_balance.checked_add(amount) {
                Some(v) => {
                    b.btc_balance = v;
                },
                None => {
                    return Err(WalletError::TransferFailed(String::from_str("balance overflow")));
                },
            },
            Currency::CkBTC => match b.ckbtc_balance.checked_add(amount) {
                Some(v) => {
                    b.ckbtc_balance = v;
                },
                None => {
                    return Err(WalletError::TransferFailed(String::from_str("balance overflow")));
                },
            },
        }
        b.last_updated = now;
        let id = match self.next_tx_id() {
            Some(id) => id,
            None => {
                return Err(WalletError::TransferFailed(String::from_str("transaction identifiers exhausted")));
            },
        };
        let out = b.clone();
        self.put(user, b);
        self.record(user, "deposit", amount, currency, &id, now);
        Ok(out)
    }

    /// Moves `params.amount` of `params.currency` from `from` to `params.to`, recording the
    /// movement for both, and hands back the sender's new balance.
    pub fn transfer(&mut self, from: &String, params: &TransferParams, now: u64) -> (r: Result<
        WalletBalance,
        WalletError,
    >)
        requires
            old(self).wf(),
        ensures
            final(self).wf(),
            r is Err ==> final(self).balances() == old(self).balances() && final(self).transactions()
                == old(self).transactions(),
            params.amount == 0 ==> r == Err::<WalletBalance, WalletError>(WalletError::InvalidAmount),
            params.amount > 0 && from@ == params.to@ ==> r matches Err(WalletError::TransferFailed(_)),
            params.amount > 0 && from@ != params.to@ && !has_balance(old(self).balances(), from@)
                ==> r == Err::<WalletBalance, WalletError>(WalletError::InsufficientBalance),
            params.amount > 0 && from@ != params.to@ && has_balance(old(self).balances(), from@)
                && currency_of(params.currency@) is None ==> r == Err::<WalletBalance, WalletError>(
                WalletError::InvalidAddress,
            ),
            params.amount > 0 && from@ != params.to@ && has_balance(old(self).balances(), from@)
                && currency_of(params.currency@) is Some ==> {
                let c = currency_of(params.currency@)->0;
                let s = old(self).balances();
                let sb = s[balance_slot(s, from@)];
                let rb = balance_or_empty(s, params.to@, now);
                if held(sb, c) < params.amount {
                    r == Err::<WalletBalance, WalletError>(WalletError::InsufficientBalance)
                } else if held(rb, c) + params.amount > u64::MAX || old(self).tx_count() >= u64::MAX {
                    r matches Err(WalletError::TransferFailed(_))
                } else {
                    let nsb = with_held(sb, c, (held(sb, c) - params.amount) as u64, now);
                    let nrb = with_held(rb, c, (held(rb, c) + params.amount) as u64, now);
                    let id = tx_id_of(old(self).tx_count() + 1);
                    &&& r matches Ok(x)
                    &&& r->Ok_0@ == nsb
                    &&& final(self).balances() == put_balance(put_balance(s, from@, nsb), params.to@, nrb)
                    &&& final(self).transactions() == old(self).transactions().push(
                        confirmed_tx(id, from@, "transfer_out"@, params.amount, params.currency@, now),
                    ).push(confirmed_tx(id, params.to@, "transfer_in"@, params.amount, params.currency@, now))
                }
            },
    {
        if params.amount == 0 {
            return Err(WalletError::InvalidAmount);
        }
        if *from == params.to {
            return Err(WalletError::TransferFailed(String::from_str("Cannot transfer to yourself")));
        }
        let mut sender = match self.find(from) {
            None => {
                return Err(WalletError::InsufficientBalance);
            },
            Some(i) => {
                assert(self.balances()[i as int] == self.balances@[i as int]@);
                self.balances[i].clone()
            },
        };
        let c = match parse_currency(&params.currency) {
            Some(c) => c,
            None => {
                return Err(WalletError::InvalidAddress);
            },
        };
        let mut recipient = self.balance_for(&params.to, now);
        match c {
            Currency::BTC => {
                if sender.btc_balance < params.amount {
                    return Err(WalletError::InsufficientBalance);
                }
                match recipient.btc_balance.checked_add(params.amount) {
                    Some(v) => {
                        recipient.btc_balance = v;
                    },
                    None => {
                        return Err(WalletError::TransferFailed(String::from_str("balance overflow")));
                    },
                }
                sender.btc_balance = sender.btc_balance - params.amount;
            },
            Currency::CkBTC => {
                if sender.ckbtc_balance < params.amount {
                    return Err(WalletError::InsufficientBalance);
                }
                match recipient.ckbtc_balance.checked_add(params.amount) {
                    Some(v) => {
                        recipient.ckbtc_balance = v;
                    },
                    None => {
                        return Err(WalletError::TransferFailed(String::from_str("balance overflow")));
                    },
                }
                sender.ckbtc_balance = sender.ckbtc_balance - params.amount;
            },
        }
        sender.last_updated = now;
        recipient.last_updated = now;
        let id = match self.next_tx_id() {
            Some(id) => id,
            None => {
                return Err(WalletError::TransferFailed(String::from_str("transaction identifiers exhausted")));
            },
        };
        let out = sender.clone();
        self.put(from, sender);
        self.put(&params.to, recipient);
        self.record(from, "transfer_out", params.amount, &params.currency, &id, now);
        self.record(&params.to, "transfer_in", params.amount, &params.currency, &id, now);
        Ok(out)
    }

    /// The transactions of `user`, in order.
    pub fn get_transactions(&self, user: &String) -> (r: Vec<Transaction>)
        ensures
            transactions_view(r@) == transactions_of(self.transactions(), user@),
    {
        let mut out: Vec<Transaction> = Vec::new();
        let mut i: usize = 0;
        assert(self.transactions().len() == self.transactions@.len());
        while i < self.transactions.len()
            invariant
                i <= self.transactions().len(),
                self.transactions().len() == self.transactions@.len(),
                transactions_view(out@) == transactions_of(self.transactions().subrange(0, i as int), user@),
            decreases self.transactions@.len() - i,
        {
            let ghost prev = out@;
            assert(self.transactions()[i as int] == self.transactions@[i as int]@);
            let t = &self.transactions[i];
            if t.user_id == *user {
                out.push(t.clone());
                assert(transactions_view(out@) =~= transactions_view(prev).push(self.transactions()[i as int]));
            }
            proof {
                let s1 = self.transactions().subrange(0, i + 1);
                assert(s1.drop_last() =~= self.transactions().subrange(0, i as int));
                assert(s1.last() == self.transactions()[i as int]);
                reveal(Seq::filter);
                assert(transactions_of(s1, user@) == if s1.last().user == user@ {
                    transactions_of(s1.drop_last(), user@).push(s1.last())
                } else {
                    transactions_of(s1.drop_last(), user@)
                });
            }
            i = i + 1;
        }
        assert(self.transactions().subrange(0, i as int) =~= self.transactions());
        out
    }

    fn find_address(&self, user: &String, currency: &String) -> (r: Option<usize>)
        requires
            self.wf(),
        ensures
            has_address(self.addresses(), user@, currency@) ==> (r matches Some(i) && i as int
                == address_slot(self.addresses(), user@, currency@)),
            !has_address(self.addresses(), user@, currency@) ==> r is None,
            r matches Some(i) ==> i < self.addresses().len(),
    {
        let mut i: usize = 0;
        while i < self.addresses.len()
            invariant
                self.wf(),
                i <= self.addresses().len(),
                self.addresses().len() == self.addresses@.len(),
                forall|j: int|
                    0 <= j < i ==> !((#[trigger] self.addresses()[j]).user == user@
                        && self.addresses()[j].currency == currency@),
            decreases self.addresses@.len() - i,
        {
            assert(self.addresses()[i as int] == self.addresses@[i as int]@);
            let a = &self.addresses[i];
            if a.user_id == *user && a.currency == *currency {
                proof {
                    let s = self.addresses();
                    assert(s[i as int].user == user@ && s[i as int].currency == currency@);
                    let k = address_slot(s, user@, currency@);
                    if k != i {
                        assert(s[k].user == user@ && s[k].currency == currency@);
                    }
                }
                return Some(i);
            }
            i = i + 1;
        }
        None
    }

    /// `user`'s deposit address for `currency`: the one handed out before, or a new one derived
    /// from the clock. A new address also opens an empty balance for `user` if they had none.
    pub fn get_deposit_address(&mut self, user: &String, currency: &String, now: u64) -> (r: Result<
        DepositAddress,
        WalletError,
    >)
        requires
            old(self).wf(),
        ensures
            final(self).wf(),
            final(self).transactions() == old(self).transactions(),
            has_address(old(self).addresses(), user@, currency@) ==> (r matches Ok(a) && a@
                == old(self).addresses()[address_slot(old(self).addresses(), user@, currency@)]
                && final(self).addresses() == old(self).addresses() && final(self).balances()
                == old(self).balances()),
            !has_address(old(self).addresses(), user@, currency@) && currency_of(currency@) is None
                ==> r == Err::<DepositAddress, WalletError>(WalletError::InvalidAddress)
                && final(self).addresses() == old(self).addresses() && final(self).balances()
                == old(self).balances(),
            !has_address(old(self).addresses(), user@, currency@) && currency_of(currency@) is Some
                ==> {
                let a = AddressView {
                    user: user@,
                    address: address_at(currency_of(currency@)->0, now),
                    currency: currency@,
                    created_at: now,
                };
                &&& r matches Ok(x)
                &&& r->Ok_0@ == a
                &&& final(self).addresses() == old(self).addresses().push(a)
                &&& final(self).balances() == put_balance(
                    old(self).balances(),
                    user@,
                    balance_or_empty(old(self).balances(), user@, now),
                )
            },
    {
        if let Some(i) = self.find_address(user, currency) {
            assert(self.addresses()[i as int] == self.addresses@[i as int]@);
            return Ok(self.addresses[i].clone());
        }
        let mut address = String::new();
        match parse_currency(currency) {
            Some(Currency::BTC) => {
                crate::text::push_char(&mut address, 't');
                crate::text::push_char(&mut address, 'b');
                crate::text::push_char(&mut address, '1');
                crate::text::push_char(&mut address, 'q');
            },
            Some(Currency::CkBTC) => {
                crate::text::push_char(&mut address, 'c');
                crate::text::push_char(&mut address, 'k');
                crate::text::push_char(&mut address, 'b');
                crate::text::push_char(&mut address, 't');
                crate::text::push_char(&mut address, 'c');
                crate::text::push_char(&mut address, '-');
            },
            None => {
                return Err(WalletError::InvalidAddress);
            },
        }
        let ghost head = address@;
        push_hex(&mut address, now % ADDRESS_SPACE);
        assert(address@ =~= address_at(currency_of(currency@)->0, now));
        let entry = DepositAddress {
            user_id: user.clone(),
            address,
            currency: currency.clone(),
            created_at: now,
        };
        let out = entry.clone();
        let ghost before = self.addresses();
        let ghost v = entry@;
        self.addresses.push(entry);
        assert(self.addresses() =~= before.push(v));
        assert forall|i: int, j: int|
            0 <= i < self.addresses().len() && 0 <= j < self.addresses().len() && i != j
                && self.addresses()[i].user == self.addresses()[j].user
                implies #[trigger] self.addresses()[i].currency != #[trigger] self.addresses()[j].currency by {
            if i < before.len() {
                assert(self.addresses()[i] == before[i]);
            }
            if j < before.len() {
                assert(self.addresses()[j] == before[j]);
            }
        }
        assert(self.balances() =~= old(self).balances());
        let b = self.balance_for(user, now);
        self.put(user, b);
        Ok(out)
    }

    /// The deposit addresses of `user`, in the order they were handed out.
    pub fn get_addresses(&self, user: &String) -> (r: Vec<DepositAddress>)
        ensures
            addresses_view(r@) == addresses_of(self.addresses(), user@),
    {
        let mut out: Vec<DepositAddress> = Vec::new();
        let mut i: usize = 0;
        assert(self.addresses().len() == self.addresses@.len());
        while i < self.addresses.len()
            invariant
                i <= self.addresses().len(),
                self.addresses().len() == self.addresses@.len(),
                addresses_view(out@) == addresses_of(self.addresses().subrange(0, i as int), user@),
            decreases self.addresses@.len() - i,
        {
            let ghost prev = out@;
            assert(self.addresses()[i as int] == self.addresses@[i as int]@);
            let a = &self.addresses[i];
            if a.user_id == *user {
                out.push(a.clone());
                assert(addresses_view(out@) =~= addresses_view(prev).push(self.addresses()[i as int]));
            }
            proof {
                let s1 = self.addresses().subrange(0, i + 1);
                assert(s1.drop_last() =~= self.addresses().subrange(0, i as int));
                assert(s1.last() == self.addresses()[i as int]);
                reveal(Seq::filter);
                assert(addresses_of(s1, user@) == if s1.last().user == user@ {
                    addresses_of(s1.drop_last(), user@).push(s1.last())
                } else {
                    addresses_of(s1.drop_last(), user@)
                });
            }
            i = i + 1;
        }
        assert(self.addresses().subrange(0, i as int) =~= self.addresses());
        out
    }
}

} // verus!
