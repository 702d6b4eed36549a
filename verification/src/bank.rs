//! The ledger: account records and the operations that move money between them.
//!
//! A [`Bank`] is viewed as a map from account identifiers to balances. Every
//! operation is specified by a pair of functions on that map: its outcome and
//! the ledger it leaves behind. A refused operation leaves the ledger as it
//! was; the one exception is a transfer whose credit is refused after its
//! debit went through, which keeps the debit.

use vstd::prelude::*;

verus! {

/// The amount that [`Bank::payroll`] deposits.
pub const PAYROLL: i32 = 200;

/// The divisor by which [`Bank::payinterest`] computes the interest on a balance.
pub const INTEREST_DIVISOR: i32 = 10;

/// The two ways in which an amount enters an account operation.
#[derive(Clone, Copy, Debug, PartialEq, Eq, Structural)]
pub enum Operation {
    Deposit,
    Withdraw,
}

/// Why a ledger operation was refused.
#[derive(Clone, Copy, Debug, PartialEq, Eq, Structural)]
pub enum LedgerError {
    /// The identifier names no account of the ledger.
    AccountNotFound,
    /// A deposit that is not positive, or a withdrawal that is negative.
    InvalidAmount(Operation),
    /// A withdrawal of more than the account holds.
    InsufficientFunds,
}

impl LedgerError {
    /// The text of the error, as spec values.
    pub open spec fn text(self) -> Seq<char> {
        match self {
            LedgerError::AccountNotFound => "账户不存在"@,
            LedgerError::InvalidAmount(Operation::Deposit) => "存款失败"@,
            LedgerError::InvalidAmount(Operation::Withdraw) => "取款失败"@,
            LedgerError::InsufficientFunds => "余额不足"@,
        }
    }

    /// The message shown to the account holder.
    pub fn message(&self) -> (s: String)
        ensures
            s@ == self.text(),
    {
        match self {
            LedgerError::AccountNotFound => "账户不存在".to_string(),
            LedgerError::InvalidAmount(Operation::Deposit) => "存款失败".to_string(),
            LedgerError::InvalidAmount(Operation::Withdraw) => "取款失败".to_string(),
            LedgerError::InsufficientFunds => "余额不足".to_string(),
        }
    }
}

// ---------------------------------------------------------------------------
// One account
// ---------------------------------------------------------------------------

/// Whether an account takes a deposit of `amount`: only a positive one.
pub open spec fn credit_outcome(amount: int) -> Result<(), LedgerError> {
    if amount > 0 {
        Ok(())
    } else {
        Err(LedgerError::InvalidAmount(Operation::Deposit))
    }
}

/// The balance after a deposit of `amount` was asked for.
pub open spec fn balance_after_credit(balance: int, amount: int) -> int {
    if credit_outcome(amount) is Ok {
        balance + amount
    } else {
        balance
    }
}

/// Whether an account that holds `balance` gives out `amount`: not a negative
/// amount, and not more than it holds.
pub open spec fn debit_outcome(balance: int, amount: int) -> Result<(), LedgerError> {
    if amount < 0 {
        Err(LedgerError::InvalidAmount(Operation::Withdraw))
    } else if balance < amount {
        Err(LedgerError::InsufficientFunds)
    } else {
        Ok(())
    }
}

/// The balance after a withdrawal of `amount` was asked for.
pub open spec fn balance_after_debit(balance: int, amount: int) -> int {
    if debit_outcome(balance, amount) is Ok {
        balance - amount
    } else {
        balance
    }
}

/// One account: its identifier and its balance.
pub struct Bankaccount {
    account_number: String,
    balance: i32,
}

impl Bankaccount {
    /// The account's identifier.
    pub closed spec fn id(&self) -> Seq<char> {
        self.account_number@
    }

    /// The account's balance.
    pub closed spec fn funds(&self) -> int {
        self.balance as int
    }

    /// The balance of an account is one that it can hold.
    pub proof fn law_funds_fit(&self)
        ensures
            i32::MIN <= self.funds() <= i32::MAX,
    {
    }

    /// An account with the given identifier and balance.
    pub fn new(account_number: String, balance: i32) -> (account: Self)
        ensures
            account.id() == account_number@,
            account.funds() == balance,
    {
        Bankaccount { account_number, balance }
    }

    /// The account's balance.
    pub fn balance(&self) -> (balance: i32)
        ensures
            balance == self.funds(),
    {
        self.balance
    }

    /// Adds `amount` to the balance, if it is positive.
    pub fn deposit(&mut self, amount: i32) -> (res: Result<(), LedgerError>)
        requires
            amount > 0 ==> old(self).funds() + amount <= i32::MAX,
        ensures
            res == credit_outcome(amount as int),
            final(self).funds() == balance_after_credit(old(self).funds(), amount as int),
            final(self).id() == old(self).id(),
    {
        if amount > 0 {
            self.balance += amount;
            Ok(())
        } else {
            Err(LedgerError::InvalidAmount(Operation::Deposit))
        }
    }

    /// Takes `amount` from the balance, if it is not negative and the balance
    /// covers it.
    pub fn withdraw(&mut self, amount: i32) -> (res: Result<(), LedgerError>)
        ensures
            res == debit_outcome(old(self).funds(), amount as int),
            final(self).funds() == balance_after_debit(old(self).funds(), amount as int),
            final(self).id() == old(self).id(),
    {
        if amount < 0 {
            Err(LedgerError::InvalidAmount(Operation::Withdraw))
        } else if self.balance < amount {
            Err(LedgerError::InsufficientFunds)
        } else {
            self.balance -= amount;
            Ok(())
        }
    }
}

impl Clone for Bankaccount {
    fn clone(&self) -> (res: Self)
        ensures
            res == *self,
    {
        Bankaccount { account_number: self.account_number.clone(), balance: self.balance }
    }
}

// ---------------------------------------------------------------------------
// The ledger as a map
// ---------------------------------------------------------------------------

/// A ledger, seen as the balance of each account that it holds.
pub type Ledger = Map<Seq<char>, int>;

/// Whether the ledger takes a deposit of `amount` into `id`.
pub open spec fn deposit_outcome(
    ledger: Ledger,
    id: Seq<char>,
    amount: int,
) -> Result<(), LedgerError> {
    if ledger.contains_key(id) {
        credit_outcome(amount)
    } else {
        Err(LedgerError::AccountNotFound)
    }
}

/// The ledger after a deposit of `amount` into `id` was asked for.
pub open spec fn ledger_after_deposit(ledger: Ledger, id: Seq<char>, amount: int) -> Ledger {
    if deposit_outcome(ledger, id, amount) is Ok {
        ledger.insert(id, ledger[id] + amount)
    } else {
        ledger
    }
}

/// Whether the ledger gives out `amount` from `id`.
pub open spec fn withdraw_outcome(
    ledger: Ledger,
    id: Seq<char>,
    amount: int,
) -> Result<(), LedgerError> {
    if ledger.contains_key(id) {
        debit_outcome(ledger[id], amount)
    } else {
        Err(LedgerError::AccountNotFound)
    }
}

/// The ledger after a withdrawal of `amount` from `id` was asked for.
pub open spec fn ledger_after_withdraw(ledger: Ledger, id: Seq<char>, amount: int) -> Ledger {
    if withdraw_outcome(ledger, id, amount) is Ok {
        ledger.insert(id, ledger[id] - amount)
    } else {
        ledger
    }
}

/// The outcome of a transfer: that of the withdrawal from `from` if it is
/// refused, else that of the deposit into `to` that follows it.
pub open spec fn transfer_outcome(
    ledger: Ledger,
    amount: int,
    from: Seq<char>,
    to: Seq<char>,
) -> Result<(), LedgerError> {
    match withdraw_outcome(ledger, from, amount) {
        Err(e) => Err(e),
        Ok(_) => deposit_outcome(ledger_after_withdraw(ledger, from, amount), to, amount),
    }
}

/// The ledger after a transfer was asked for. A refused withdrawal leaves it
/// untouched; a deposit refused after the withdrawal leaves the withdrawal in
/// place.
pub open spec fn ledger_after_transfer(
    ledger: Ledger,
    amount: int,
    from: Seq<char>,
    to: Seq<char>,
) -> Ledger {
    if withdraw_outcome(ledger, from, amount) is Ok {
        ledger_after_deposit(ledger_after_withdraw(ledger, from, amount), to, amount)
    } else {
        ledger
    }
}

/// The ledger after the account `id` was looked for in it and, being absent,
/// was brought in with the balance that the bank's records hold for it, if
/// they hold one.
pub open spec fn ledger_after_hydrate(
    ledger: Ledger,
    id: Seq<char>,
    stored: Option<i32>,
) -> Ledger {
    match stored {
        Some(balance) if !ledger.contains_key(id) => ledger.insert(id, balance as int),
        _ => ledger,
    }
}

/// The interest due on a balance: the balance divided by
/// [`INTEREST_DIVISOR`], rounded down.
pub open spec fn interest_on(balance: int) -> int {
    balance / (INTEREST_DIVISOR as int)
}

/// The outcome of paying interest into `id`: that of depositing the interest
/// due on its balance.
pub open spec fn interest_outcome(ledger: Ledger, id: Seq<char>) -> Result<(), LedgerError> {
    deposit_outcome(ledger, id, interest_on(ledger[id]))
}

/// The ledger after interest on `id` was asked for.
pub open spec fn ledger_after_interest(ledger: Ledger, id: Seq<char>) -> Ledger {
    ledger_after_deposit(ledger, id, interest_on(ledger[id]))
}

/// Whether the account `id` can hold its balance after a deposit of
/// `amount`. Only a deposit that the ledger accepts needs room.
pub open spec fn credit_fits(ledger: Ledger, id: Seq<char>, amount: int) -> bool {
    ledger.contains_key(id) && amount > 0 ==> ledger[id] + amount <= i32::MAX
}

/// Whether a transfer leaves the receiving account, if it gets that far, with
/// a balance that it can hold.
pub open spec fn transfer_fits(
    ledger: Ledger,
    amount: int,
    from: Seq<char>,
    to: Seq<char>,
) -> bool {
    withdraw_outcome(ledger, from, amount) is Ok ==> credit_fits(
        ledger_after_withdraw(ledger, from, amount),
        to,
        amount,
    )
}

/// Whether the account `id`, if the ledger holds it, can hold its balance
/// with the interest due on it.
pub open spec fn interest_fits(ledger: Ledger, id: Seq<char>) -> bool {
    credit_fits(ledger, id, interest_on(ledger[id]))
}

/// Whether every balance of the ledger is one that an account can hold.
pub open spec fn balances_fit(ledger: Ledger) -> bool {
    forall|id: Seq<char>| #[trigger]
        ledger.contains_key(id) ==> i32::MIN <= ledger[id] <= i32::MAX
}

/// Whether `listed` names every account of the ledger with its balance, and
/// none twice.
pub open spec fn lists(listed: Seq<(String, i32)>, ledger: Ledger) -> bool {
    &&& forall|k: int|
        0 <= k < listed.len() ==> ledger.contains_key((#[trigger] listed[k]).0@)
            && ledger[listed[k].0@] == listed[k].1
    &&& forall|j: int, k: int|
        0 <= j < k < listed.len() ==> (#[trigger] listed[j]).0@ != (#[trigger] listed[k]).0@
    &&& forall|id: Seq<char>|
        ledger.contains_key(id) ==> exists|k: int|
            0 <= k < listed.len() && (#[trigger] listed[k]).0@ == id
}

// ---------------------------------------------------------------------------
// The ledger
// ---------------------------------------------------------------------------

spec fn has_account(accounts: Seq<Bankaccount>, id: Seq<char>) -> bool {
    exists|i: int| 0 <= i < accounts.len() && #[trigger] accounts[i].id() == id
}

spec fn index_of(accounts: Seq<Bankaccount>, id: Seq<char>) -> int {
    choose|i: int| 0 <= i < accounts.len() && #[trigger] accounts[i].id() == id
}

spec fn distinct(accounts: Seq<Bankaccount>) -> bool {
    forall|i: int, j: int|
        0 <= i < j < accounts.len() ==> #[trigger] accounts[i].id() != #[trigger] accounts[j].id()
}

spec fn ledger_of(accounts: Seq<Bankaccount>) -> Ledger {
    Map::new(
        |id: Seq<char>| has_account(accounts, id),
        |id: Seq<char>| accounts[index_of(accounts, id)].funds(),
    )
}

/// Where no identifier occurs twice, the ledger holds each account under its
/// identifier.
proof fn lemma_lookup(accounts: Seq<Bankaccount>, i: int)
    requires
        distinct(accounts),
        0 <= i < accounts.len(),
    ensures
        has_account(accounts, accounts[i].id()),
        index_of(accounts, accounts[i].id()) == i,
        ledger_of(accounts).contains_key(accounts[i].id()),
        ledger_of(accounts)[accounts[i].id()] == accounts[i].funds(),
{
}

/// Replacing an account by one with the same identifier rewrites its entry
/// of the ledger and no other.
proof fn lemma_update(accounts: Seq<Bankaccount>, i: int, account: Bankaccount)
    requires
        distinct(accounts),
        0 <= i < accounts.len(),
        account.id() == accounts[i].id(),
    ensures
        distinct(accounts.update(i, account)),
        ledger_of(accounts.update(i, account)) == ledger_of(accounts).insert(
            account.id(),
            account.funds(),
        ),
{
    let updated = accounts.update(i, account);
    assert forall|id: Seq<char>| has_account(updated, id) <==> has_account(accounts, id) by {
        if has_account(updated, id) {
            let k = index_of(updated, id);
            assert(accounts[k].id() == id);
        }
        if has_account(accounts, id) {
            let k = index_of(accounts, id);
            assert(updated[k].id() == id);
        }
    }
    lemma_lookup(accounts, i);
}

/// Adding an account under an identifier that the ledger lacks adds its
/// entry and changes no other.
proof fn lemma_push(accounts: Seq<Bankaccount>, account: Bankaccount)
    requires
        distinct(accounts),
        !has_account(accounts, account.id()),
    ensures
        distinct(accounts.push(account)),
        ledger_of(accounts.push(account)) == ledger_of(accounts).insert(
            account.id(),
            account.funds(),
        ),
{
    let pushed = accounts.push(account);
    let last = accounts.len() as int;
    assert(pushed[last].id() == account.id());
    assert forall|id: Seq<char>| #[trigger]
        ledger_of(pushed).contains_key(id) <==> ledger_of(accounts).insert(
            account.id(),
            account.funds(),
        ).contains_key(id) by {
        if has_account(pushed, id) {
            let k = index_of(pushed, id);
            if k < last {
                assert(accounts[k].id() == id);
            }
        }
        if has_account(accounts, id) {
            let k = index_of(accounts, id);
            assert(pushed[k].id() == id);
        }
    }
}

/// The accounts of a bank, each under its identifier.
pub struct Bank {
    accounts: Vec<Bankaccount>,
}

impl View for Bank {
    type V = Ledger;

    /// The balance of each account.
    closed spec fn view(&self) -> Ledger {
        ledger_of(self.accounts@)
    }
}

impl Bank {
    /// The bank's invariant: no identifier is held twice.
    pub closed spec fn wf(&self) -> bool {
        distinct(self.accounts@)
    }

    /// A bank without accounts.
    pub fn new() -> (bank: Self)
        ensures
            bank.wf(),
            bank@ == Map::<Seq<char>, int>::empty(),
    {
        Bank { accounts: Vec::new() }
    }

    /// The place of the account `id` among the accounts, if it is there.
    fn find(&self, id: &String) -> (place: Option<usize>)
        ensures
            match place {
                Some(i) => i < self.accounts@.len() && self.accounts@[i as int].id() == id@,
                None => !has_account(self.accounts@, id@),
            },
    {
        let mut i: usize = 0;
        while i < self.accounts.len()
            invariant
                i <= self.accounts@.len(),
                forall|k: int| 0 <= k < i ==> (#[trigger] self.accounts@[k].id()) != id@,
            decreases self.accounts@.len() - i,
        {
            if self.accounts[i].account_number == *id {
                return Some(i);
            }
            i += 1;
        }
        None
    }

    /// Whether the bank holds the account `account`.
    pub fn check_account(&mut self, account: String) -> (found: bool)
        ensures
            found == old(self)@.contains_key(account@),
            *final(self) == *old(self),
    {
        self.find(&account).is_some()
    }

    /// Opens the account `account` with the balance `amount`, or resets its
    /// balance if the bank holds it already.
    pub fn add_account(&mut self, account: String, amount: i32)
        requires
            old(self).wf(),
        ensures
            final(self).wf(),
            final(self)@ == old(self)@.insert(account@, amount as int),
    {
        let opened = Bankaccount { account_number: account, balance: amount };
        match self.find(&opened.account_number) {
            Some(i) => {
                proof {
                    lemma_update(self.accounts@, i as int, opened);
                }
                self.accounts.set(i, opened);
            },
            None => {
                proof {
                    lemma_push(self.accounts@, opened);
                }
                self.accounts.push(opened);
            },
        }
    }

    /// Makes sure that the bank holds `account` if it can: an account that it
    /// lacks is opened with the balance `stored`, where there is one. An
    /// account that it holds keeps its balance. Says whether the bank holds
    /// the account afterwards.
    pub fn hydrate(&mut self, account: String, stored: Option<i32>) -> (present: bool)
        requires
            old(self).wf(),
        ensures
            final(self).wf(),
            final(self)@ == ledger_after_hydrate(old(self)@, account@, stored),
            present == final(self)@.contains_key(account@),
            present == (old(self)@.contains_key(account@) || stored is Some),
    {
        match self.find(&account) {
            Some(_) => true,
            None => match stored {
                Some(balance) => {
                    self.add_account(account, balance);
                    true
                },
                None => false,
            },
        }
    }

    /// Whether `account` has room for a deposit of `amount`: whether
    /// [`Bank::deposit`] may be called with them.
    pub fn has_room(&self, account: &String, amount: i32) -> (fits: bool)
        requires
            self.wf(),
        ensures
            fits == credit_fits(self@, account@, amount as int),
    {
        match self.find(account) {
            None => true,
            Some(i) => {
                proof {
                    lemma_lookup(self.accounts@, i as int);
                }
                amount <= 0 || self.accounts[i].balance <= i32::MAX - amount
            },
        }
    }

    /// Whether the receiving account has room for a transfer: whether
    /// [`Bank::transfer`] may be called with these arguments.
    pub fn has_room_for_transfer(&self, amount: i32, from: &String, to: &String) -> (fits: bool)
        requires
            self.wf(),
        ensures
            fits == transfer_fits(self@, amount as int, from@, to@),
    {
        match self.find(from) {
            None => true,
            Some(i) => {
                proof {
                    lemma_lookup(self.accounts@, i as int);
                }
                let paying = self.accounts[i].balance;
                if amount <= 0 || paying < amount {
                    return true;
                }
                match self.find(to) {
                    None => {
                        true
                    },
                    Some(j) => {
                        proof {
                            lemma_lookup(self.accounts@, j as int);
                        }
                        let receiving = if j == i {
                            paying - amount
                        } else {
                            self.accounts[j].balance
                        };
                        receiving <= i32::MAX - amount
                    },
                }
            },
        }
    }

    /// Whether `account` has room for the interest due on it: whether
    /// [`Bank::payinterest`] may be called with it.
    pub fn has_room_for_interest(&self, account: &String) -> (fits: bool)
        requires
            self.wf(),
        ensures
            fits == interest_fits(self@, account@),
    {
        match self.find(account) {
            None => true,
            Some(i) => {
                proof {
                    lemma_lookup(self.accounts@, i as int);
                }
                let balance = self.accounts[i].balance;
                balance < 0 || balance <= i32::MAX - balance / INTEREST_DIVISOR
            },
        }
    }

    /// Deposits `amount` into `account`.
    pub fn deposit(&mut self, account: String, amount: i32) -> (res: Result<(), LedgerError>)
        requires
            old(self).wf(),
            credit_fits(old(self)@, account@, amount as int),
        ensures
            final(self).wf(),
            res == deposit_outcome(old(self)@, account@, amount as int),
            final(self)@ == ledger_after_deposit(old(self)@, account@, amount as int),
            res is Err ==> final(self)@ == old(self)@,
    {
        match self.find(&account) {
            None => Err(LedgerError::AccountNotFound),
            Some(i) => {
                proof {
                    lemma_lookup(self.accounts@, i as int);
                }
                let ghost before = self.accounts@;
                let res = self.accounts[i].deposit(amount);
                proof {
                    lemma_update(before, i as int, self.accounts@[i as int]);
                }
                res
            },
        }
    }

    /// Withdraws `amount` from `account`.
    pub fn withdraw(&mut self, account: String, amount: i32) -> (res: Result<(), LedgerError>)
        requires
            old(self).wf(),
        ensures
            final(self).wf(),
            res == withdraw_outcome(old(self)@, account@, amount as int),
            final(self)@ == ledger_after_withdraw(old(self)@, account@, amount as int),
            res is Err ==> final(self)@ == old(self)@,
    {
        match self.find(&account) {
            None => Err(LedgerError::AccountNotFound),
            Some(i) => {
                proof {
                    lemma_lookup(self.accounts@, i as int);
                }
                let ghost before = self.accounts@;
                let res = self.accounts[i].withdraw(amount);
                proof {
                    lemma_update(before, i as int, self.accounts@[i as int]);
                }
                res
            },
        }
    }

    /// Moves `amount` from `from` to `to`: a withdrawal, then a deposit. A
    /// refused withdrawal ends the transfer; a deposit refused after it
    /// leaves the withdrawal in place.
    pub fn transfer(
        &mut self,
        amount: i32,
        from: String,
        to: String,
    ) -> (res: Result<(), LedgerError>)
        requires
            old(self).wf(),
            transfer_fits(old(self)@, amount as int, from@, to@),
        ensures
            final(self).wf(),
            res == transfer_outcome(old(self)@, amount as int, from@, to@),
            final(self)@ == ledger_after_transfer(old(self)@, amount as int, from@, to@),
            res is Err && old(self)@.contains_key(to@) ==> final(self)@ == old(self)@,
    {
        match self.withdraw(from, amount) {
            Err(e) => Err(e),
            Ok(_) => self.deposit(to, amount),
        }
    }

    /// Deposits the payroll amount, [`PAYROLL`], into `account`.
    pub fn payroll(&mut self, account: String) -> (res: Result<(), LedgerError>)
        requires
            old(self).wf(),
            credit_fits(old(self)@, account@, PAYROLL as int),
        ensures
            final(self).wf(),
            res == deposit_outcome(old(self)@, account@, PAYROLL as int),
            final(self)@ == ledger_after_deposit(old(self)@, account@, PAYROLL as int),
    {
        self.deposit(account, PAYROLL)
    }

    /// Deposits into `account` the interest due on its balance. Where none is
    /// due, the deposit is refused as any deposit of nothing is.
    pub fn payinterest(&mut self, account: String) -> (res: Result<(), LedgerError>)
        requires
            old(self).wf(),
            interest_fits(old(self)@, account@),
        ensures
            final(self).wf(),
            res == interest_outcome(old(self)@, account@),
            final(self)@ == ledger_after_interest(old(self)@, account@),
            res is Err ==> final(self)@ == old(self)@,
    {
        match self.find(&account) {
            None => Err(LedgerError::AccountNotFound),
            Some(i) => {
                proof {
                    lemma_lookup(self.accounts@, i as int);
                }
                let ghost before = self.accounts@;
                let amount = self.accounts[i].balance / INTEREST_DIVISOR;
                let res = self.accounts[i].deposit(amount);
                proof {
                    lemma_update(before, i as int, self.accounts@[i as int]);
                }
                res
            },
        }
    }

    /// The balance of `account_number`, which the bank must hold.
    pub fn showbalance(&self, account_number: String) -> (balance: i32)
        requires
            self.wf(),
            self@.contains_key(account_number@),
        ensures
            balance == self@[account_number@],
    {
        match self.find(&account_number) {
            Some(i) => {
                proof {
                    lemma_lookup(self.accounts@, i as int);
                }
                self.accounts[i].balance
            },
            None => unreached(),
        }
    }

    /// Every account with its balance, each once.
    pub fn get_accounts(&self) -> (listed: Vec<(String, i32)>)
        requires
            self.wf(),
        ensures
            lists(listed@, self@),
    {
        let mut listed: Vec<(String, i32)> = Vec::new();
        let mut i: usize = 0;
        while i < self.accounts.len()
            invariant
                i <= self.accounts@.len(),
                listed@.len() == i,
                forall|k: int|
                    0 <= k < i ==> (#[trigger] listed@[k]).0@ == self.accounts@[k].id()
                        && listed@[k].1 == self.accounts@[k].funds(),
            decreases self.accounts@.len() - i,
        {
            listed.push((self.accounts[i].account_number.clone(), self.accounts[i].balance));
            i += 1;
        }
        proof {
            assert forall|id: Seq<char>| self@.contains_key(id) implies exists|k: int|
                0 <= k < listed@.len() && (#[trigger] listed@[k]).0@ == id by {
                let k = index_of(self.accounts@, id);
                assert(listed@[k].0@ == id);
            }
        }
        listed
    }

    /// Opens the four accounts that every new bank starts with.
    pub fn init(&mut self)
        requires
            old(self).wf(),
        ensures
            final(self).wf(),
            final(self)@ == old(self)@.insert("123"@, 0).insert("234"@, 0).insert(
                "345"@,
                200,
            ).insert("456"@, 200),
    {
        self.add_account("123".to_string(), 0);
        self.add_account("234".to_string(), 0);
        self.add_account("345".to_string(), 200);
        self.add_account("456".to_string(), 200);
    }

    /// Every balance of a bank is one that an account can hold.
    pub proof fn law_balances_fit(&self)
        ensures
            balances_fit(self@),
    {
    }
}

// ---------------------------------------------------------------------------
// Laws of the ledger
// ---------------------------------------------------------------------------

/// A deposit that is refused, for whatever reason, leaves the ledger as it
/// was. It is refused exactly when the account is missing (`AccountNotFound`)
/// or, the account being there, the amount is not positive (`InvalidAmount`).
pub proof fn law_deposit_refused(ledger: Ledger, id: Seq<char>, amount: int)
    ensures
        !ledger.contains_key(id) <==> deposit_outcome(ledger, id, amount) == Err::<(), LedgerError>(
            LedgerError::AccountNotFound,
        ),
        ledger.contains_key(id) && amount <= 0 <==> deposit_outcome(ledger, id, amount) == Err::<
            (),
            LedgerError,
        >(LedgerError::InvalidAmount(Operation::Deposit)),
        deposit_outcome(ledger, id, amount) is Err ==> ledger_after_deposit(ledger, id, amount)
            == ledger,
{
}

/// An accepted deposit raises the balance of its account by the amount and
/// touches no other account.
pub proof fn law_deposit_accepted(ledger: Ledger, id: Seq<char>, amount: int)
    requires
        deposit_outcome(ledger, id, amount) is Ok,
    ensures
        ledger_after_deposit(ledger, id, amount).dom() == ledger.dom(),
        ledger_after_deposit(ledger, id, amount)[id] == ledger[id] + amount,
        forall|other: Seq<char>|
            other != id ==> ledger_after_deposit(ledger, id, amount)[other] == ledger[other],
{
}

/// A withdrawal that is refused leaves the ledger as it was. Asking an
/// account for one more than it holds is refused with `InsufficientFunds`,
/// unless that amount is itself negative.
pub proof fn law_withdraw_refused(ledger: Ledger, id: Seq<char>, amount: int)
    ensures
        withdraw_outcome(ledger, id, amount) is Err ==> ledger_after_withdraw(ledger, id, amount)
            == ledger,
        ledger.contains_key(id) && 0 <= amount && ledger[id] < amount <==> withdraw_outcome(
            ledger,
            id,
            amount,
        ) == Err::<(), LedgerError>(LedgerError::InsufficientFunds),
        ledger.contains_key(id) && ledger[id] >= -1 ==> withdraw_outcome(ledger, id, ledger[id] + 1)
            == Err::<(), LedgerError>(LedgerError::InsufficientFunds),
{
}

/// No overdraft: an account that is not in debt is not in debt after a
/// withdrawal was asked of it, whatever the amount.
pub proof fn law_no_overdraft(ledger: Ledger, id: Seq<char>, amount: int)
    requires
        ledger.contains_key(id),
        ledger[id] >= 0,
    ensures
        ledger_after_withdraw(ledger, id, amount)[id] >= 0,
{
}

/// A transfer between two different accounts of the ledger, of a positive
/// amount that the paying account covers, succeeds. It lowers the paying
/// account by the amount, raises the receiving account by the amount, and
/// touches no other account; the sum of the two balances stays what it was.
pub proof fn law_transfer_moves_amount(ledger: Ledger, amount: int, from: Seq<char>, to: Seq<char>)
    requires
        ledger.contains_key(from),
        ledger.contains_key(to),
        from != to,
        0 < amount <= ledger[from],
    ensures
        transfer_outcome(ledger, amount, from, to) is Ok,
        ledger_after_transfer(ledger, amount, from, to).dom() == ledger.dom(),
        ledger_after_transfer(ledger, amount, from, to)[from] == ledger[from] - amount,
        ledger_after_transfer(ledger, amount, from, to)[to] == ledger[to] + amount,
        forall|other: Seq<char>|
            other != from && other != to ==> ledger_after_transfer(ledger, amount, from, to)[other]
                == ledger[other],
{
}

/// A transfer of more than the paying account holds is refused with
/// `InsufficientFunds`, and a transfer whose withdrawal is refused, for
/// whatever reason, leaves the whole ledger as it was.
pub proof fn law_transfer_refused(ledger: Ledger, amount: int, from: Seq<char>, to: Seq<char>)
    ensures
        ledger.contains_key(from) && 0 <= amount && ledger[from] < amount ==> transfer_outcome(
            ledger,
            amount,
            from,
            to,
        ) == Err::<(), LedgerError>(LedgerError::InsufficientFunds),
        withdraw_outcome(ledger, from, amount) is Err ==> transfer_outcome(ledger, amount, from, to)
            == withdraw_outcome(ledger, from, amount) && ledger_after_transfer(
            ledger,
            amount,
            from,
            to,
        ) == ledger,
{
}

/// A refused transfer to an account that the ledger holds leaves the whole
/// ledger as it was, whichever of its two steps refused. Only a transfer to
/// a missing account can end with the withdrawal made and no deposit.
pub proof fn law_refused_transfer_to_known_account(
    ledger: Ledger,
    amount: int,
    from: Seq<char>,
    to: Seq<char>,
)
    requires
        ledger.contains_key(to),
        transfer_outcome(ledger, amount, from, to) is Err,
    ensures
        ledger_after_transfer(ledger, amount, from, to) == ledger,
{
}

/// Two transfers between two disjoint pairs of accounts do not see each
/// other: each has the outcome it would have alone, and the ledger after
/// both is the same in either order.
pub proof fn law_disjoint_transfers_commute(
    ledger: Ledger,
    first: int,
    a: Seq<char>,
    b: Seq<char>,
    second: int,
    c: Seq<char>,
    d: Seq<char>,
)
    requires
        a != c,
        a != d,
        b != c,
        b != d,
    ensures
        transfer_outcome(ledger_after_transfer(ledger, first, a, b), second, c, d)
            == transfer_outcome(ledger, second, c, d),
        transfer_outcome(ledger_after_transfer(ledger, second, c, d), first, a, b)
            == transfer_outcome(ledger, first, a, b),
        ledger_after_transfer(ledger_after_transfer(ledger, first, a, b), second, c, d)
            == ledger_after_transfer(ledger_after_transfer(ledger, second, c, d), first, a, b),
{
}

/// No interest is due on a balance below [`INTEREST_DIVISOR`], so paying
/// interest on an empty account is refused with `InvalidAmount`, as a deposit
/// of nothing is, and the ledger stays as it was.
pub proof fn law_no_interest_on_small_balance(ledger: Ledger, id: Seq<char>)
    requires
        ledger.contains_key(id),
        ledger[id] < INTEREST_DIVISOR,
    ensures
        interest_on(0) == 0,
        interest_on(ledger[id]) <= 0,
        interest_outcome(ledger, id) == Err::<(), LedgerError>(
            LedgerError::InvalidAmount(Operation::Deposit),
        ),
        ledger_after_interest(ledger, id) == ledger,
{
}

} // verus!
