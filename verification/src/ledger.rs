//! The account store: wallets, vaults and campaign records, each under its
//! address, with the lamports that each holds.

use vstd::prelude::*;
use crate::address::Address;
use crate::campaign::{Campaign, CampaignView};

verus! {

/// What an account is.
#[derive(Debug)]
pub enum AccountData {
    /// An account that a key holder controls.
    Wallet,
    /// The account that holds a campaign's donations.
    Vault,
    /// A campaign record.
    Campaign(Campaign),
}

/// What an account is, as contracts speak of it.
pub enum AccountDataView {
    Wallet,
    Vault,
    Campaign(CampaignView),
}

impl View for AccountData {
    type V = AccountDataView;

    open spec fn view(&self) -> AccountDataView {
        match self {
            AccountData::Wallet => AccountDataView::Wallet,
            AccountData::Vault => AccountDataView::Vault,
            AccountData::Campaign(c) => AccountDataView::Campaign(c@),
        }
    }
}

/// An account of the store.
#[derive(Debug)]
pub struct Account {
    pub key: Address,
    pub lamports: u64,
    pub data: AccountData,
}

/// An account as contracts speak of it.
pub struct AccountView {
    pub lamports: nat,
    pub data: AccountDataView,
}

impl View for Account {
    type V = AccountView;

    open spec fn view(&self) -> AccountView {
        AccountView { lamports: self.lamports as nat, data: self.data@ }
    }
}

/// The store as contracts speak of it.
pub struct LedgerView {
    /// The address of the program that derives campaign and vault addresses.
    pub program_id: Seq<u8>,
    /// The price of one byte of storage.
    pub lamports_per_byte: nat,
    /// The lamports that all accounts hold together.
    pub supply: nat,
    /// The accounts by address.
    pub accounts: Map<Seq<u8>, AccountView>,
}

impl LedgerView {
    /// Whether a wallet stands at `key`.
    pub open spec fn is_wallet(self, key: Seq<u8>) -> bool {
        self.accounts.contains_key(key) && self.accounts[key].data is Wallet
    }

    /// Whether a vault stands at `key`.
    pub open spec fn is_vault(self, key: Seq<u8>) -> bool {
        self.accounts.contains_key(key) && self.accounts[key].data is Vault
    }

    /// Whether a campaign stands at `key`.
    pub open spec fn is_campaign(self, key: Seq<u8>) -> bool {
        self.accounts.contains_key(key) && self.accounts[key].data is Campaign
    }

    /// The campaign at `key`.
    pub open spec fn campaign(self, key: Seq<u8>) -> CampaignView
        recommends
            self.is_campaign(key),
    {
        self.accounts[key].data->Campaign_0
    }

    /// The lamports of the account at `key`; zero where there is none.
    pub open spec fn balance(self, key: Seq<u8>) -> nat {
        if self.accounts.contains_key(key) {
            self.accounts[key].lamports
        } else {
            0
        }
    }

    /// The lamports that `key` can pay as a wallet; zero where no wallet
    /// stands there.
    pub open spec fn spendable(self, key: Seq<u8>) -> nat {
        if self.is_wallet(key) {
            self.accounts[key].lamports
        } else {
            0
        }
    }

    /// Whether the campaign at `key` is sound: a valid record, owned by a
    /// wallet, with a vault that holds no more than was donated.
    pub open spec fn campaign_sound(self, key: Seq<u8>) -> bool {
        let c = self.campaign(key);
        &&& c.valid()
        &&& self.is_wallet(c.owner)
        &&& self.is_vault(c.vault)
        &&& self.accounts[c.vault].lamports <= c.amount
    }

    /// The store's invariant over its accounts: every campaign is sound and
    /// no two campaigns share a vault.
    pub open spec fn consistent(self) -> bool {
        &&& forall|k: Seq<u8>| #[trigger] self.is_campaign(k) ==> self.campaign_sound(k)
        &&& forall|j: Seq<u8>, k: Seq<u8>|
            #[trigger] self.is_campaign(j) && #[trigger] self.is_campaign(k) && j != k
                ==> self.campaign(j).vault != self.campaign(k).vault
    }

    /// The store with `account` at `key`.
    pub open spec fn with_account(self, key: Seq<u8>, account: AccountView) -> LedgerView {
        LedgerView { accounts: self.accounts.insert(key, account), ..self }
    }

    /// The store with the lamports of the account at `key` set to `lamports`.
    pub open spec fn with_balance(self, key: Seq<u8>, lamports: nat) -> LedgerView {
        self.with_account(key, AccountView { lamports, ..self.accounts[key] })
    }

    /// The store after `lamports` moved from the account at `from` to the
    /// account at `to`.
    pub open spec fn moved(self, from: Seq<u8>, to: Seq<u8>, lamports: nat) -> LedgerView
        recommends
            from != to,
            self.accounts.contains_key(from),
            self.accounts.contains_key(to),
            self.accounts[from].lamports >= lamports,
    {
        self.with_balance(from, (self.accounts[from].lamports - lamports) as nat).with_balance(
            to,
            self.accounts[to].lamports + lamports,
        )
    }

    /// Whether new lamports may go to `key`: a wallet stands there or nothing
    /// does, and the supply stays within the unsigned 64-bit range.
    pub open spec fn fund_allowed(self, key: Seq<u8>, lamports: nat) -> bool {
        (self.is_wallet(key) || !self.accounts.contains_key(key)) && self.supply + lamports
            <= u64::MAX
    }

    /// The store after new lamports for `key` were asked for: changed where
    /// they may go there, and as before where not.
    pub open spec fn after_fund(self, key: Seq<u8>, lamports: nat) -> LedgerView {
        if self.fund_allowed(key, lamports) {
            self.funded(key, lamports)
        } else {
            self
        }
    }

    /// The store with `lamports` new lamports in the wallet at `key`.
    pub open spec fn funded(self, key: Seq<u8>, lamports: nat) -> LedgerView {
        LedgerView {
            supply: self.supply + lamports,
            accounts: self.accounts.insert(
                key,
                AccountView {
                    lamports: self.balance(key) + lamports,
                    data: AccountDataView::Wallet,
                },
            ),
            ..self
        }
    }

    /// The store after a donation of `amount` was recorded in the campaign
    /// at `key`.
    pub open spec fn credited(self, key: Seq<u8>, amount: nat) -> LedgerView
        recommends
            self.is_campaign(key),
    {
        self.with_account(
            key,
            AccountView {
                data: AccountDataView::Campaign(self.campaign(key).credited(amount)),
                ..self.accounts[key]
            },
        )
    }
}

impl LedgerView {
    /// New lamports in a wallet leave the store consistent.
    pub(crate) proof fn lemma_funded_consistent(self, key: Seq<u8>, lamports: nat)
        requires
            self.consistent(),
            self.is_wallet(key) || !self.accounts.contains_key(key),
        ensures
            self.funded(key, lamports).consistent(),
    {
        let after = self.funded(key, lamports);
        assert forall|k: Seq<u8>| #[trigger] after.is_campaign(k) implies after.campaign_sound(
            k,
        ) by {
            assert(self.is_campaign(k));
            assert(self.campaign_sound(k));
        }
        assert forall|j: Seq<u8>, k: Seq<u8>|
            #[trigger] after.is_campaign(j) && #[trigger] after.is_campaign(k) && j
                != k implies after.campaign(j).vault != after.campaign(k).vault by {
            assert(self.is_campaign(j));
            assert(self.is_campaign(k));
        }
    }
}

/// Whether an account of `s` stands at `key`.
spec fn has_key(s: Seq<Account>, key: Seq<u8>) -> bool {
    exists|i: int| 0 <= i < s.len() && #[trigger] s[i].key@ == key
}

/// The place in `s` of the account at `key`.
spec fn index_of(s: Seq<Account>, key: Seq<u8>) -> int {
    choose|i: int| 0 <= i < s.len() && #[trigger] s[i].key@ == key
}

/// Whether no two accounts of `s` stand at one address.
spec fn keys_distinct(s: Seq<Account>) -> bool {
    forall|i: int, j: int|
        0 <= i < j < s.len() ==> #[trigger] s[i].key@ != #[trigger] s[j].key@
}

/// The accounts of `s` by address.
spec fn accounts_map(s: Seq<Account>) -> Map<Seq<u8>, AccountView> {
    Map::new(|k: Seq<u8>| has_key(s, k), |k: Seq<u8>| s[index_of(s, k)]@)
}

/// The lamports that the accounts of `s` hold together.
spec fn total(s: Seq<Account>) -> nat
    decreases s.len(),
{
    if s.len() == 0 {
        0
    } else {
        total(s.drop_last()) + s.last().lamports as nat
    }
}

/// An account is found under its own address.
proof fn lemma_lookup(s: Seq<Account>, i: int)
    requires
        keys_distinct(s),
        0 <= i < s.len(),
    ensures
        has_key(s, s[i].key@),
        index_of(s, s[i].key@) == i,
        accounts_map(s).contains_key(s[i].key@),
        accounts_map(s)[s[i].key@] == s[i]@,
{
    let k = s[i].key@;
    assert(has_key(s, k));
    let j = index_of(s, k);
    assert(0 <= j < s.len() && s[j].key@ == k);
    if j < i {
        assert(s[j].key@ != s[i].key@);
    } else if i < j {
        assert(s[i].key@ != s[j].key@);
    }
}

/// Replacing an account by one at the same address replaces it in the map.
proof fn lemma_update(s: Seq<Account>, i: int, a: Account)
    requires
        keys_distinct(s),
        0 <= i < s.len(),
        a.key@ == s[i].key@,
    ensures
        keys_distinct(s.update(i, a)),
        accounts_map(s.update(i, a)) == accounts_map(s).insert(a.key@, a@),
        total(s.update(i, a)) == total(s) - s[i].lamports + a.lamports,
{
    let t = s.update(i, a);
    assert(keys_distinct(t)) by {
        assert forall|x: int, y: int| 0 <= x < y < t.len() implies #[trigger] t[x].key@
            != #[trigger] t[y].key@ by {
            assert(t[x].key@ == s[x].key@);
            assert(t[y].key@ == s[y].key@);
        }
    }
    assert forall|k: Seq<u8>| has_key(s, k) == has_key(t, k) by {
        if has_key(s, k) {
            let x = index_of(s, k);
            assert(t[x].key@ == k);
        }
        if has_key(t, k) {
            let x = index_of(t, k);
            assert(s[x].key@ == k);
        }
    }
    assert forall|k: Seq<u8>| has_key(t, k) implies #[trigger] accounts_map(t)[k]
        == accounts_map(s).insert(a.key@, a@)[k] by {
        let x = index_of(t, k);
        lemma_lookup(t, x);
        assert(s[x].key@ == k);
        lemma_lookup(s, x);
    }
    assert(accounts_map(t) =~= accounts_map(s).insert(a.key@, a@));
    lemma_total_update(s, i, a);
}

/// Adding an account at a new address adds it to the map.
proof fn lemma_push(s: Seq<Account>, a: Account)
    requires
        keys_distinct(s),
        !has_key(s, a.key@),
    ensures
        keys_distinct(s.push(a)),
        accounts_map(s.push(a)) == accounts_map(s).insert(a.key@, a@),
        total(s.push(a)) == total(s) + a.lamports,
{
    let t = s.push(a);
    assert(keys_distinct(t)) by {
        assert forall|x: int, y: int| 0 <= x < y < t.len() implies #[trigger] t[x].key@
            != #[trigger] t[y].key@ by {
            if y < s.len() {
                assert(t[x].key@ == s[x].key@);
                assert(t[y].key@ == s[y].key@);
            } else {
                assert(s[x].key@ != a.key@);
            }
        }
    }
    assert forall|k: Seq<u8>| has_key(t, k) == (has_key(s, k) || k == a.key@) by {
        if has_key(s, k) {
            let x = index_of(s, k);
            assert(t[x].key@ == k);
        }
        if k == a.key@ {
            assert(t[s.len() as int].key@ == k);
        }
        if has_key(t, k) {
            let x = index_of(t, k);
            if x < s.len() {
                assert(s[x].key@ == k);
            }
        }
    }
    assert forall|k: Seq<u8>| has_key(t, k) implies #[trigger] accounts_map(t)[k]
        == accounts_map(s).insert(a.key@, a@)[k] by {
        let x = index_of(t, k);
        lemma_lookup(t, x);
        if x < s.len() {
            assert(s[x].key@ == k);
            lemma_lookup(s, x);
        }
    }
    assert(accounts_map(t) =~= accounts_map(s).insert(a.key@, a@));
    assert(t.drop_last() =~= s);
}

/// Replacing an account changes the total by the difference of the two.
proof fn lemma_total_update(s: Seq<Account>, i: int, a: Account)
    requires
        0 <= i < s.len(),
    ensures
        total(s.update(i, a)) == total(s) - s[i].lamports + a.lamports,
    decreases s.len(),
{
    let t = s.update(i, a);
    if i == s.len() - 1 {
        assert(t.drop_last() =~= s.drop_last());
    } else {
        lemma_total_update(s.drop_last(), i, a);
        assert(t.drop_last() =~= s.drop_last().update(i, a));
    }
}

/// Two accounts together hold no more than the total.
proof fn lemma_total_bounds(s: Seq<Account>, i: int, j: int)
    requires
        0 <= i < s.len(),
        0 <= j < s.len(),
        i != j,
    ensures
        s[i].lamports + s[j].lamports <= total(s),
    decreases s.len(),
{
    let last = s.len() - 1;
    if i == last {
        lemma_total_bound(s.drop_last(), j);
    } else if j == last {
        lemma_total_bound(s.drop_last(), i);
    } else {
        lemma_total_bounds(s.drop_last(), i, j);
    }
}

/// One account holds no more than the total.
proof fn lemma_total_bound(s: Seq<Account>, i: int)
    requires
        0 <= i < s.len(),
    ensures
        s[i].lamports <= total(s),
    decreases s.len(),
{
    if i < s.len() - 1 {
        lemma_total_bound(s.drop_last(), i);
    }
}


/// The account store.
#[derive(Debug)]
pub struct Ledger {
    program_id: Address,
    lamports_per_byte: u64,
    accounts: Vec<Account>,
}

impl View for Ledger {
    type V = LedgerView;

    closed spec fn view(&self) -> LedgerView {
        LedgerView {
            program_id: self.program_id@,
            lamports_per_byte: self.lamports_per_byte as nat,
            supply: total(self.accounts@),
            accounts: accounts_map(self.accounts@),
        }
    }
}

impl Ledger {
    /// What the store keeps of its own accord: one account per address, and
    /// a supply within the unsigned 64-bit range.
    pub closed spec fn inv(&self) -> bool {
        &&& keys_distinct(self.accounts@)
        &&& total(self.accounts@) <= u64::MAX
    }

    /// The store's invariant.
    pub open spec fn wf(&self) -> bool {
        &&& self.inv()
        &&& self@.consistent()
    }

    /// What the invariant says of sizes: the supply is within the unsigned
    /// 64-bit range, and no two accounts hold more than the supply.
    pub proof fn lemma_bounds(&self)
        requires
            self.inv(),
        ensures
            self@.supply <= u64::MAX,
            self@.program_id.len() == 32,
            forall|k: Seq<u8>| #[trigger]
                self@.accounts.contains_key(k) ==> k.len() == 32 && self@.accounts[k].lamports
                    <= self@.supply,
            forall|j: Seq<u8>, k: Seq<u8>|
                #[trigger] self@.accounts.contains_key(j) && #[trigger] self@.accounts.contains_key(
                    k,
                ) && j != k ==> self@.accounts[j].lamports + self@.accounts[k].lamports
                    <= self@.supply,
    {
        let s = self.accounts@;
        assert forall|k: Seq<u8>| #[trigger] self@.accounts.contains_key(k) implies k.len() == 32
            && self@.accounts[k].lamports <= self@.supply by {
            let i = index_of(s, k);
            lemma_lookup(s, i);
            lemma_total_bound(s, i);
        }
        assert forall|j: Seq<u8>, k: Seq<u8>|
            #[trigger] self@.accounts.contains_key(j) && #[trigger] self@.accounts.contains_key(k)
                && j != k implies self@.accounts[j].lamports + self@.accounts[k].lamports
            <= self@.supply by {
            let x = index_of(s, j);
            let y = index_of(s, k);
            lemma_lookup(s, x);
            lemma_lookup(s, y);
            lemma_total_bounds(s, x, y);
        }
    }

    /// An empty store for the program at `program_id`, where a byte of
    /// storage costs `lamports_per_byte`.
    pub fn new(program_id: Address, lamports_per_byte: u64) -> (r: Ledger)
        ensures
            r.wf(),
            r@ == (LedgerView {
                program_id: program_id@,
                lamports_per_byte: lamports_per_byte as nat,
                supply: 0,
                accounts: Map::empty(),
            }),
    {
        let r = Ledger { program_id, lamports_per_byte, accounts: Vec::new() };
        assert(r@.accounts =~= Map::empty());
        r
    }

    /// The address of the program that derives campaign and vault addresses.
    pub fn program_id(&self) -> (r: Address)
        ensures
            r@ == self@.program_id,
    {
        self.program_id
    }

    /// The price of one byte of storage.
    pub fn lamports_per_byte(&self) -> (r: u64)
        ensures
            r == self@.lamports_per_byte,
    {
        self.lamports_per_byte
    }

    /// The place of the account at `key`.
    fn find(&self, key: &Address) -> (r: Option<usize>)
        requires
            self.inv(),
        ensures
            r matches Some(i) ==> i < self.accounts.len() && self.accounts[i as int].key@ == key@,
            r is Some <==> self@.accounts.contains_key(key@),
    {
        let mut i: usize = 0;
        while i < self.accounts.len()
            invariant
                self.inv(),
                i <= self.accounts.len(),
                forall|j: int| 0 <= j < i ==> self.accounts[j].key@ != key@,
            decreases self.accounts.len() - i,
        {
            if self.accounts[i].key.same(key) {
                proof {
                    lemma_lookup(self.accounts@, i as int);
                }
                return Some(i);
            }
            i += 1;
        }
        None
    }

    /// Whether an account stands at `key`.
    pub fn contains(&self, key: &Address) -> (r: bool)
        requires
            self.wf(),
        ensures
            r == self@.accounts.contains_key(key@),
    {
        self.find(key).is_some()
    }

    /// The lamports of the account at `key`; zero where there is none.
    pub fn balance(&self, key: &Address) -> (r: u64)
        requires
            self.wf(),
        ensures
            r == self@.balance(key@),
    {
        match self.find(key) {
            Some(i) => {
                proof {
                    lemma_lookup(self.accounts@, i as int);
                }
                self.accounts[i].lamports
            },
            None => 0,
        }
    }

    /// The lamports that `key` can pay as a wallet; zero where no wallet
    /// stands there.
    pub fn spendable(&self, key: &Address) -> (r: u64)
        requires
            self.wf(),
        ensures
            r == self@.spendable(key@),
    {
        match self.find(key) {
            Some(i) => {
                proof {
                    lemma_lookup(self.accounts@, i as int);
                }
                match self.accounts[i].data {
                    AccountData::Wallet => self.accounts[i].lamports,
                    _ => 0,
                }
            },
            None => 0,
        }
    }

    /// Whether a wallet stands at `key`.
    pub fn is_wallet(&self, key: &Address) -> (r: bool)
        requires
            self.wf(),
        ensures
            r == self@.is_wallet(key@),
    {
        match self.find(key) {
            Some(i) => {
                proof {
                    lemma_lookup(self.accounts@, i as int);
                }
                match self.accounts[i].data {
                    AccountData::Wallet => true,
                    _ => false,
                }
            },
            None => false,
        }
    }

    /// The campaign at `key`, where one stands there.
    pub fn campaign(&self, key: &Address) -> (r: Option<&Campaign>)
        requires
            self.wf(),
        ensures
            r is Some <==> self@.is_campaign(key@),
            r matches Some(c) ==> c@ == self@.campaign(key@),
    {
        match self.find(key) {
            Some(i) => {
                proof {
                    lemma_lookup(self.accounts@, i as int);
                }
                match &self.accounts[i].data {
                    AccountData::Campaign(c) => Some(c),
                    _ => None,
                }
            },
            None => None,
        }
    }

    /// The lamports that all accounts hold together.
    pub fn supply(&self) -> (r: u64)
        requires
            self.wf(),
        ensures
            r == self@.supply,
    {
        let mut sum: u64 = 0;
        let mut i: usize = 0;
        while i < self.accounts.len()
            invariant
                i <= self.accounts.len(),
                sum == total(self.accounts@.subrange(0, i as int)),
                total(self.accounts@) <= u64::MAX,
            decreases self.accounts.len() - i,
        {
            proof {
                let next = self.accounts@.subrange(0, i + 1);
                assert(next.drop_last() =~= self.accounts@.subrange(0, i as int));
                lemma_total_prefix(self.accounts@, i + 1);
            }
            sum = sum + self.accounts[i].lamports;
            i += 1;
        }
        assert(self.accounts@.subrange(0, i as int) =~= self.accounts@);
        sum
    }

    /// Puts `lamports` new lamports into the wallet at `key`, which comes to
    /// be where no account stands there. Nothing changes, and the result is
    /// `false`, where the account at `key` is no wallet or the supply would
    /// leave the unsigned 64-bit range.
    pub fn fund(&mut self, key: &Address, lamports: u64) -> (r: bool)
        requires
            old(self).wf(),
        ensures
            final(self).wf(),
            r == old(self)@.fund_allowed(key@, lamports as nat),
            final(self)@ == old(self)@.after_fund(key@, lamports as nat),
    {
        let supply = self.supply();
        if lamports > u64::MAX - supply {
            return false;
        }
        match self.find(key) {
            Some(i) => {
                proof {
                    lemma_lookup(self.accounts@, i as int);
                    lemma_total_bound(self.accounts@, i as int);
                }
                match self.accounts[i].data {
                    AccountData::Wallet => {},
                    _ => {
                        return false;
                    },
                }
                self.accounts[i].lamports = self.accounts[i].lamports + lamports;
                proof {
                    lemma_update(old(self).accounts@, i as int, self.accounts@[i as int]);
                    assert(self.accounts@ =~= old(self).accounts@.update(
                        i as int,
                        self.accounts@[i as int],
                    ));
                    assert(self@ == old(self)@.funded(key@, lamports as nat));
                }
            },
            None => {
                let account = Account { key: *key, lamports, data: AccountData::Wallet };
                proof {
                    lemma_push(self.accounts@, account);
                }
                self.accounts.push(account);
                assert(self@ == old(self)@.funded(key@, lamports as nat));
            },
        }
        proof {
            old(self)@.lemma_funded_consistent(key@, lamports as nat);
        }
        true
    }

    /// Moves `lamports` from the account at `from` to the account at `to`.
    pub(crate) fn transfer(&mut self, from: &Address, to: &Address, lamports: u64)
        requires
            old(self).inv(),
            from@ != to@,
            old(self)@.accounts.contains_key(from@),
            old(self)@.accounts.contains_key(to@),
            old(self)@.accounts[from@].lamports >= lamports,
        ensures
            final(self).inv(),
            final(self)@ == old(self)@.moved(from@, to@, lamports as nat),
    {
        let i = self.find(from).unwrap();
        let j = self.find(to).unwrap();
        proof {
            lemma_lookup(self.accounts@, i as int);
            lemma_lookup(self.accounts@, j as int);
            lemma_total_bounds(self.accounts@, i as int, j as int);
        }
        self.accounts[i].lamports = self.accounts[i].lamports - lamports;
        let ghost mid = self.accounts@;
        proof {
            assert(mid =~= old(self).accounts@.update(i as int, mid[i as int]));
            lemma_update(old(self).accounts@, i as int, mid[i as int]);
            lemma_lookup(mid, j as int);
        }
        self.accounts[j].lamports = self.accounts[j].lamports + lamports;
        proof {
            assert(self.accounts@ =~= mid.update(j as int, self.accounts@[j as int]));
            lemma_update(mid, j as int, self.accounts@[j as int]);
        }
    }

    /// Records a donation of `amount` in the campaign at `key`.
    pub(crate) fn credit_campaign(&mut self, key: &Address, amount: u64)
        requires
            old(self).inv(),
            old(self)@.is_campaign(key@),
            old(self)@.campaign(key@).donation_error(amount as nat) is None,
        ensures
            final(self).inv(),
            final(self)@ == old(self)@.credited(key@, amount as nat),
    {
        let i = self.find(key).unwrap();
        proof {
            lemma_lookup(self.accounts@, i as int);
        }
        match &mut self.accounts[i].data {
            AccountData::Campaign(c) => {
                let r = c.record_donation(amount);
                assert(r is Ok);
            },
            _ => {},
        }
        proof {
            assert(self.accounts@ =~= old(self).accounts@.update(
                i as int,
                self.accounts@[i as int],
            ));
            lemma_update(old(self).accounts@, i as int, self.accounts@[i as int]);
        }
    }

    /// Opens an account without lamports at `key`, where none stands.
    pub(crate) fn open_account(&mut self, key: Address, data: AccountData)
        requires
            old(self).inv(),
            !old(self)@.accounts.contains_key(key@),
        ensures
            final(self).inv(),
            final(self)@ == old(self)@.with_account(
                key@,
                AccountView { lamports: 0, data: data@ },
            ),
    {
        let account = Account { key, lamports: 0, data };
        proof {
            lemma_push(self.accounts@, account);
        }
        self.accounts.push(account);
    }
}

/// A prefix holds no more than the whole.
proof fn lemma_total_prefix(s: Seq<Account>, n: int)
    requires
        0 <= n <= s.len(),
    ensures
        total(s.subrange(0, n)) <= total(s),
    decreases s.len() - n,
{
    if n < s.len() {
        lemma_total_prefix(s, n + 1);
        assert(s.subrange(0, n + 1).drop_last() =~= s.subrange(0, n));
    } else {
        assert(s.subrange(0, n) =~= s);
    }
}

} // verus!
